//! The structured content of a synced item: text clean-up, list clean-up,
//! the quality score and the decisions around the language model.

use vstd::prelude::*;
use crate::json::{field, get, get_in, item_at, json_get, json_get_str, json_item, json_u64, str_in, unsigned_of, JsonValue};
use crate::config::opt_view;
use crate::num::parse_unsigned;
use crate::pipeline::analyze::take_seq;
use crate::sync_notion::payload::{extract_string_list, string_list_of};
use crate::text::{
    list_contains, trim_str, concat, contains, contains_chars, is_whitespace, is_ws, push_lit, set_contains, ascii_lower, ascii_lower_chars, chars_eq, chars_list, chars_of, collapse_chars, collapse_ws,
    keep_trimmed, kept_trimmed, replace_char, replace_char_exec, string_of, string_views,
    strings_of, take_chars, take_prefix, trim, trim_chars, views, index_of_char, index_of_char_exec,
    last_index_of_char, last_index_of_char_exec, lemma_index_of_char_bounds, lemma_last_index_bounds, slice_chars,
};

verus! {

// ── Text and lists ──────────────────────────────────────────────────────────

/// A text with carriage returns read as line breaks, every white-space run
/// made one space, trimmed, and cut to `max_chars` characters.
pub open spec fn text_output(raw: Seq<char>, max_chars: int) -> Seq<char> {
    take_chars(trim(collapse_ws(replace_char(raw, '\r', '\n'))), max_chars)
}

pub fn normalize_text_output(raw: &str, max_chars: usize) -> (r: String)
    ensures
        r@ == text_output(raw@, max_chars as int),
{
    string_of(&text_output_chars(&chars_of(raw), max_chars))
}

pub fn text_output_chars(raw: &Vec<char>, max_chars: usize) -> (r: Vec<char>)
    ensures
        r@ == text_output(raw@, max_chars as int),
{
    take_prefix(&trim_chars(&collapse_chars(&replace_char_exec(raw, '\r', '\n'))), max_chars)
}

/// The key under which two entries of a list count as the same.
pub open spec fn entry_key(s: Seq<char>) -> Seq<char> {
    ascii_lower(trim(s))
}

/// Some entry before position `i` has the key `key`.
pub open spec fn entry_seen_before(items: Seq<Seq<char>>, i: int, key: Seq<char>) -> bool {
    exists|j: int| 0 <= j < i && entry_key(#[trigger] items[j]) == key
}

/// The first `n` entries without those whose key is empty or was seen
/// earlier, in order and unchanged.
pub open spec fn deduped_upto(items: Seq<Seq<char>>, n: int) -> Seq<Seq<char>>
    decreases n,
{
    if n <= 0 {
        Seq::empty()
    } else {
        let prev = deduped_upto(items, n - 1);
        let key = entry_key(items[n - 1]);
        if key.len() > 0 && !entry_seen_before(items, n - 1, key) {
            prev.push(items[n - 1])
        } else {
            prev
        }
    }
}

pub open spec fn deduped(items: Seq<Seq<char>>) -> Seq<Seq<char>> {
    deduped_upto(items, items.len() as int)
}

/// No two entries share a key.
pub open spec fn keys_distinct(d: Seq<Seq<char>>) -> bool {
    forall|i: int, j: int|
        0 <= i < j < d.len() ==> entry_key(#[trigger] d[i]) != entry_key(#[trigger] d[j])
}

proof fn lemma_deduped_upto(items: Seq<Seq<char>>, n: int)
    requires
        0 <= n <= items.len(),
    ensures
        keys_distinct(deduped_upto(items, n)),
        forall|i: int|
            0 <= i < deduped_upto(items, n).len() ==> entry_key(
                #[trigger] deduped_upto(items, n)[i],
            ).len() > 0 && entry_seen_before(items, n, entry_key(deduped_upto(items, n)[i])),
        forall|j: int|
            0 <= j < n && entry_key(#[trigger] items[j]).len() > 0 ==> exists|i: int|
                0 <= i < deduped_upto(items, n).len() && entry_key(deduped_upto(items, n)[i])
                    == entry_key(items[j]),
    decreases n,
{
    if n > 0 {
        lemma_deduped_upto(items, n - 1);
        let prev = deduped_upto(items, n - 1);
        let d = deduped_upto(items, n);
        let key = entry_key(items[n - 1]);
        if key.len() > 0 && !entry_seen_before(items, n - 1, key) {
            assert(d == prev.push(items[n - 1]));
            assert forall|i: int, j: int| 0 <= i < j < d.len() implies entry_key(#[trigger] d[i])
                != entry_key(#[trigger] d[j]) by {
                if j == d.len() - 1 {
                    assert(d[i] == prev[i]);
                    assert(entry_seen_before(items, n - 1, entry_key(prev[i])));
                } else {
                    assert(d[i] == prev[i] && d[j] == prev[j]);
                }
            }
            assert forall|i: int| 0 <= i < d.len() implies entry_key(#[trigger] d[i]).len() > 0
                && entry_seen_before(items, n, entry_key(d[i])) by {
                if i < prev.len() {
                    assert(d[i] == prev[i]);
                    let w = choose|w: int| 0 <= w < n - 1 && entry_key(#[trigger] items[w]) == entry_key(prev[i]);
                    assert(0 <= w < n && entry_key(items[w]) == entry_key(d[i]));
                } else {
                    assert(d[i] == items[n - 1]);
                    assert(entry_key(items[n - 1]) == entry_key(d[i]));
                }
            }
            assert forall|j: int| 0 <= j < n && entry_key(#[trigger] items[j]).len() > 0 implies exists|i: int|
                0 <= i < d.len() && entry_key(d[i]) == entry_key(items[j]) by {
                if j < n - 1 {
                    let i = choose|i: int| 0 <= i < prev.len() && entry_key(prev[i]) == entry_key(items[j]);
                    assert(d[i] == prev[i]);
                } else {
                    assert(d[d.len() - 1] == items[n - 1]);
                }
            }
        } else {
            assert(d == prev);
            assert forall|i: int| 0 <= i < d.len() implies entry_key(#[trigger] d[i]).len() > 0
                && entry_seen_before(items, n, entry_key(d[i])) by {
                let w = choose|w: int| 0 <= w < n - 1 && entry_key(#[trigger] items[w]) == entry_key(prev[i]);
                assert(0 <= w < n && entry_key(items[w]) == entry_key(d[i]));
            }
            assert forall|j: int| 0 <= j < n && entry_key(#[trigger] items[j]).len() > 0 implies exists|i: int|
                0 <= i < d.len() && entry_key(d[i]) == entry_key(items[j]) by {
                if j == n - 1 {
                    let w = choose|w: int| 0 <= w < n - 1 && entry_key(#[trigger] items[w]) == key;
                    let i = choose|i: int| 0 <= i < prev.len() && entry_key(prev[i]) == entry_key(items[w]);
                    assert(entry_key(d[i]) == entry_key(items[j]));
                }
            }
        }
    }
}

/// A cleaned list keeps one entry per key: no two of its entries share a
/// key, none has an empty key, each comes from the input, and every
/// non-empty key of the input is kept.
pub proof fn law_dedupe_keeps_one_per_key(items: Seq<Seq<char>>)
    ensures
        keys_distinct(deduped(items)),
        forall|i: int|
            0 <= i < deduped(items).len() ==> entry_key(#[trigger] deduped(items)[i]).len() > 0,
        forall|i: int|
            #![trigger deduped(items)[i]]
            0 <= i < deduped(items).len() ==> exists|j: int|
                0 <= j < items.len() && entry_key(#[trigger] items[j]) == entry_key(deduped(items)[i]),
        forall|j: int|
            #![trigger items[j]]
            0 <= j < items.len() && entry_key(items[j]).len() > 0 ==> exists|i: int|
                0 <= i < deduped(items).len() && entry_key(#[trigger] deduped(items)[i]) == entry_key(items[j]),
{
    lemma_deduped_upto(items, items.len() as int);
    let d = deduped(items);
    assert forall|i: int| #![trigger d[i]] 0 <= i < d.len() implies exists|j: int|
        0 <= j < items.len() && entry_key(#[trigger] items[j]) == entry_key(d[i]) by {
        assert(entry_seen_before(items, items.len() as int, entry_key(d[i])));
    }
}

fn seen_before_exec(keys: &Vec<Vec<char>>, i: usize, key: &Vec<char>) -> (r: bool)
    requires
        i <= keys.len(),
    ensures
        r == (exists|j: int| 0 <= j < i && #[trigger] keys@[j]@ == key@),
{
    let mut k: usize = 0;
    while k < i
        invariant
            k <= i,
            i <= keys.len(),
            forall|j: int| 0 <= j < k ==> #[trigger] keys@[j]@ != key@,
        decreases i - k,
    {
        if chars_eq(&keys[k], key) {
            return true;
        }
        k = k + 1;
    }
    false
}

pub fn dedupe_chars(items: &Vec<Vec<char>>) -> (r: Vec<Vec<char>>)
    ensures
        views(r@) == deduped(views(items@)),
{
    let ghost iv = views(items@);
    let mut keys: Vec<Vec<char>> = Vec::new();
    let mut i: usize = 0;
    while i < items.len()
        invariant
            i <= items.len(),
            iv == views(items@),
            keys.len() == i,
            forall|j: int| 0 <= j < i ==> #[trigger] keys@[j]@ == entry_key(iv[j]),
        decreases items.len() - i,
    {
        keys.push(ascii_lower_chars(&trim_chars(&items[i])));
        i = i + 1;
    }
    let mut out: Vec<Vec<char>> = Vec::new();
    let mut i: usize = 0;
    while i < items.len()
        invariant
            i <= items.len(),
            iv == views(items@),
            keys.len() == items.len(),
            forall|j: int| 0 <= j < items.len() ==> #[trigger] keys@[j]@ == entry_key(iv[j]),
            views(out@) == deduped_upto(iv, i as int),
        decreases items.len() - i,
    {
        let seen = seen_before_exec(&keys, i, &keys[i]);
        proof {
            let key = entry_key(iv[i as int]);
            assert(keys@[i as int]@ == key);
            if seen {
                let j = choose|j: int| 0 <= j < i && #[trigger] keys@[j]@ == keys@[i as int]@;
                assert(entry_key(iv[j]) == key);
            }
            if entry_seen_before(iv, i as int, key) {
                let j = choose|j: int| 0 <= j < i && entry_key(#[trigger] iv[j]) == key;
                assert(keys@[j]@ == key);
            }
        }
        if keys[i].len() > 0 && !seen {
            let ghost before = views(out@);
            out.push(crate::text::copy_chars(&items[i]));
            proof {
                assert(views(out@) =~= before.push(iv[i as int]));
            }
        }
        i = i + 1;
    }
    out
}

/// Drops the entries whose trimmed, ASCII-lower-cased key is empty or was
/// seen earlier; the others stay as they are, in order.
pub fn dedupe_string_vec(values: &mut Vec<String>)
    ensures
        string_views(final(values)@) == deduped(string_views(old(values)@)),
{
    let out = dedupe_chars(&chars_list(values));
    *values = strings_of(&out);
}

/// Each entry cut to `n` characters.
pub open spec fn cut_each(items: Seq<Seq<char>>, n: int) -> Seq<Seq<char>> {
    items.map_values(|s: Seq<char>| take_chars(s, n))
}

/// The entries of a list trimmed and cut to `max_chars_each` characters,
/// blank ones left out, at most `max_items` of them (at least one when there
/// is one: the count is checked after each entry), then deduplicated.
pub open spec fn string_list(raw: Seq<Seq<char>>, max_items: int, max_chars_each: int) -> Seq<
    Seq<char>,
> {
    deduped(
        take_seq(
            cut_each(kept_trimmed(raw), max_chars_each),
            if max_items <= 0 {
                1
            } else {
                max_items
            },
        ),
    )
}

pub fn string_list_chars(raw: &Vec<Vec<char>>, max_items: usize, max_chars_each: usize) -> (r: Vec<
    Vec<char>,
>)
    ensures
        views(r@) == string_list(views(raw@), max_items as int, max_chars_each as int),
{
    let kept = keep_trimmed(raw);
    let limit: usize = if max_items == 0 {
        1
    } else {
        max_items
    };
    let ghost cut = cut_each(views(kept@), max_chars_each as int);
    let mut out: Vec<Vec<char>> = Vec::new();
    let mut i: usize = 0;
    while i < kept.len() && i < limit
        invariant
            i <= kept.len(),
            i <= limit,
            cut == cut_each(views(kept@), max_chars_each as int),
            views(out@) == cut.take(i as int),
        decreases kept.len() - i,
    {
        let ghost before = views(out@);
        let piece = take_prefix(&kept[i], max_chars_each);
        out.push(piece);
        proof {
            assert(views(kept@)[i as int] == kept@[i as int]@);
            assert(views(out@) =~= before.push(piece@));
            assert(cut.take(i + 1) =~= cut.take(i as int).push(cut[i as int]));
        }
        i = i + 1;
    }
    proof {
        assert(cut.len() == kept.len());
        if kept.len() <= limit {
            assert(cut.take(i as int) =~= cut);
        }
        assert(views(out@) == take_seq(cut, limit as int));
    }
    dedupe_chars(&out)
}

pub fn normalize_string_list(raw: &Vec<String>, max_items: usize, max_chars_each: usize) -> (r: Vec<
    String,
>)
    ensures
        string_views(r@) == string_list(string_views(raw@), max_items as int, max_chars_each as int),
{
    strings_of(&string_list_chars(&chars_list(raw), max_items, max_chars_each))
}

// ── Quality ─────────────────────────────────────────────────────────────────
//
// Scores are kept in thirds of a point, which makes every partial score
// exact: 300 thirds are the full 100 points.

/// The non-blank characters among the first 80 of `sample` that occur in
/// `source`.
pub open spec fn matched_chars(sample: Seq<char>, source: Seq<char>) -> nat
    decreases sample.len(),
{
    if sample.len() == 0 {
        0
    } else {
        matched_chars(sample.drop_last(), source) + if !is_ws(sample.last()) && source.contains(
            sample.last(),
        ) {
            1nat
        } else {
            0nat
        }
    }
}

/// The share of the first 80 characters of the trimmed candidate that are
/// not blank and occur in the trimmed source is at least `pct` percent (a
/// blank candidate or source has share 0).
pub open spec fn overlap_at_least(candidate: Seq<char>, source: Seq<char>, pct: nat) -> bool {
    let c = trim(candidate);
    let s = trim(source);
    if c.len() == 0 || s.len() == 0 {
        pct == 0
    } else {
        let sample = take_chars(c, 80);
        matched_chars(sample, s) * 100 >= pct * sample.len()
    }
}

pub proof fn lemma_matched_chars_bound(sample: Seq<char>, source: Seq<char>)
    ensures
        matched_chars(sample, source) <= sample.len(),
    decreases sample.len(),
{
    if sample.len() > 0 {
        lemma_matched_chars_bound(sample.drop_last(), source);
    }
}

fn overlap_exec(candidate: &Vec<char>, source: &Vec<char>, pct: usize) -> (r: bool)
    requires
        pct <= 100,
    ensures
        r == overlap_at_least(candidate@, source@, pct as nat),
{
    let c = trim_chars(candidate);
    let s = trim_chars(source);
    if c.len() == 0 || s.len() == 0 {
        return pct == 0;
    }
    let sample = take_prefix(&c, 80);
    let mut matched: usize = 0;
    let mut i: usize = 0;
    while i < sample.len()
        invariant
            i <= sample.len(),
            sample.len() <= 80,
            pct <= 100,
            matched == matched_chars(sample@.take(i as int), s@),
            matched <= i,
        decreases sample.len() - i,
    {
        proof {
            assert(sample@.take(i + 1).drop_last() =~= sample@.take(i as int));
        }
        let ch = sample[i];
        if !is_whitespace(ch) && set_contains(&s, ch) {
            matched = matched + 1;
        }
        i = i + 1;
    }
    proof {
        assert(sample@.take(sample.len() as int) =~= sample@);
        let len = sample.len();
        assert(pct * len <= 100 * 80) by (nonlinear_arith)
            requires
                pct <= 100,
                len <= 80,
        ;
    }
    matched * 100 >= pct * sample.len()
}

/// The summary followed by each key point on a line of its own.
pub open spec fn joined_points(summary: Seq<char>, points: Seq<Seq<char>>) -> Seq<char>
    decreases points.len(),
{
    if points.len() == 0 {
        summary
    } else {
        joined_points(summary, points.drop_last()) + seq!['\n'] + points.last()
    }
}

/// Words that mark advice one can act on.
pub open spec fn action_keywords() -> Seq<Seq<char>> {
    seq![
        "建议"@,
        "步骤"@,
        "执行"@,
        "行动"@,
        "策略"@,
        "框架"@,
        "先"@,
        "然后"@,
        "最后"@,
        "复盘"@,
    ]
}

/// How many of the words occur in `text`.
pub open spec fn keyword_hits(text: Seq<char>, words: Seq<Seq<char>>) -> nat
    decreases words.len(),
{
    if words.len() == 0 {
        0
    } else {
        keyword_hits(text, words.drop_last()) + if contains(text, words.last()) {
            1nat
        } else {
            0nat
        }
    }
}

fn action_keyword_list() -> (r: Vec<Vec<char>>)
    ensures
        views(r@) == action_keywords(),
{
    let mut r: Vec<Vec<char>> = Vec::new();
    push_lit(&mut r, "建议");
    push_lit(&mut r, "步骤");
    push_lit(&mut r, "执行");
    push_lit(&mut r, "行动");
    push_lit(&mut r, "策略");
    push_lit(&mut r, "框架");
    push_lit(&mut r, "先");
    push_lit(&mut r, "然后");
    push_lit(&mut r, "最后");
    push_lit(&mut r, "复盘");
    proof {
        assert(views(r@) =~= action_keywords());
    }
    r
}

/// The number of action words in the summary and the key points.
pub fn action_keyword_hits(summary: &str, key_points: &Vec<String>) -> (r: usize)
    ensures
        r == keyword_hits(joined_points(summary@, string_views(key_points@)), action_keywords()),
{
    let ghost pv = string_views(key_points@);
    let mut text = chars_of(summary);
    let mut i: usize = 0;
    let mut nl: Vec<char> = Vec::new();
    nl.push('\n');
    proof {
        assert(nl@ =~= seq!['\n']);
    }
    while i < key_points.len()
        invariant
            i <= key_points.len(),
            pv == string_views(key_points@),
            nl@ == seq!['\n'],
            text@ == joined_points(summary@, pv.take(i as int)),
        decreases key_points.len() - i,
    {
        proof {
            assert(pv.take(i + 1).drop_last() =~= pv.take(i as int));
            assert(pv.take(i + 1).last() == key_points@[i as int]@);
        }
        text = concat(&concat(&text, &nl), &chars_of(key_points[i].as_str()));
        i = i + 1;
    }
    proof {
        assert(pv.take(key_points.len() as int) =~= pv);
    }
    let words = action_keyword_list();
    proof {
        assert(views(words@).len() == words@.len());
        assert(action_keywords().len() == 10);
    }
    let mut hits: usize = 0;
    let mut k: usize = 0;
    while k < words.len()
        invariant
            k <= words.len(),
            words.len() == 10,
            views(words@) == action_keywords(),
            hits == keyword_hits(text@, action_keywords().take(k as int)),
            hits <= k,
        decreases words.len() - k,
    {
        proof {
            assert(action_keywords().take(k + 1).drop_last() =~= action_keywords().take(k as int));
            assert(views(words@)[k as int] == words@[k as int]@);
        }
        if contains_chars(&text, &words[k]) {
            hits = hits + 1;
        }
        k = k + 1;
    }
    proof {
        assert(action_keywords().take(10) =~= action_keywords());
    }
    hits
}

/// The tags that say something: not blank and not the unclassified tag.
pub open spec fn useful_tags(tags: Seq<Seq<char>>) -> nat
    decreases tags.len(),
{
    if tags.len() == 0 {
        0
    } else {
        useful_tags(tags.drop_last()) + if trim(tags.last()).len() > 0 && trim(tags.last())
            != "未分类"@ {
            1nat
        } else {
            0nat
        }
    }
}

/// The key points that share at least 6% of their characters with the
/// source.
pub open spec fn grounded_points(points: Seq<Seq<char>>, source: Seq<char>) -> nat
    decreases points.len(),
{
    if points.len() == 0 {
        0
    } else {
        grounded_points(points.drop_last(), source) + if overlap_at_least(
            points.last(),
            source,
            6,
        ) {
            1nat
        } else {
            0nat
        }
    }
}

/// The route reasons the router gives.
pub open spec fn known_route_reason(r: Option<Seq<char>>) -> bool {
    match r {
        None => true,
        Some(v) => v == "low_confidence"@ || v == "growth_limit_exceeded"@ || v
            == "keyword_match"@ || v == "fallback_default"@ || v == "fallback_tag_unmapped"@,
    }
}

pub open spec fn summary_present(summary: Seq<char>) -> bool {
    trim(summary).len() > 0 && trim(summary) != "-"@
}

/// The points of each rule, in thirds: a summary (10), three key points
/// (10, pro rata), three useful tags (5, pro rata), the summary's grounding
/// in the source (15 / 8 / 2), grounded key points (10 / 5 / 1), action
/// words (20 / 12 / 4), the summary's length (10 / 6 / 2), the number of
/// key points (10 / 6 / 1), and 10 given. `n` counts the key points, `u`
/// the useful tags, `g` the grounded points, `h` the action words and `sl`
/// the characters of the trimmed summary.
pub open spec fn score_from(
    present: bool,
    n: int,
    u: int,
    over18: bool,
    over8: bool,
    g: int,
    h: int,
    sl: int,
) -> int {
    part_summary(present) + part_points(n) + part_tags(u) + part_grounding(over18, over8)
        + part_evidence(g) + part_action(h) + part_length(sl) + part_readability(n) + 30
}

#[verifier::opaque]
pub open spec fn part_summary(present: bool) -> int {
    if present {
        30
    } else {
        0
    }
}

#[verifier::opaque]
pub open spec fn part_points(n: int) -> int {
    if n >= 3 {
        30
    } else {
        10 * n
    }
}

#[verifier::opaque]
pub open spec fn part_tags(u: int) -> int {
    if u >= 3 {
        15
    } else {
        5 * u
    }
}

#[verifier::opaque]
pub open spec fn part_grounding(over18: bool, over8: bool) -> int {
    if over18 {
        45
    } else if over8 {
        24
    } else {
        6
    }
}

#[verifier::opaque]
pub open spec fn part_evidence(g: int) -> int {
    if g >= 2 {
        30
    } else if g == 1 {
        15
    } else {
        3
    }
}

#[verifier::opaque]
pub open spec fn part_action(h: int) -> int {
    if h >= 3 {
        60
    } else if h >= 1 {
        36
    } else {
        12
    }
}

#[verifier::opaque]
pub open spec fn part_length(sl: int) -> int {
    if 80 <= sl <= 260 {
        30
    } else if 50 <= sl <= 360 {
        18
    } else {
        6
    }
}

#[verifier::opaque]
pub open spec fn part_readability(n: int) -> int {
    if 3 <= n <= 6 {
        30
    } else if n > 0 {
        18
    } else {
        3
    }
}

/// The rules that were not met, in the order they are checked.
pub open spec fn flags_from(
    present: bool,
    n: int,
    u: int,
    over8: bool,
    g: int,
    h: int,
    sl: int,
    route_ok: bool,
) -> Seq<Seq<char>> {
    let f1 = flag_if(Seq::empty(), !present, "summary"@);
    let f2 = flag_if(f1, n < 3, "key_points"@);
    let f3 = flag_if(f2, u < 3, "tags"@);
    let f4 = flag_if(f3, !over8, "factuality"@);
    let f5 = flag_if(f4, g == 0, "evidence"@);
    let f6 = flag_if(f5, h == 0, "actionability"@);
    let f7 = flag_if(f6, !(50 <= sl <= 360), "summary_length"@);
    let f8 = flag_if(f7, n == 0, "readability"@);
    flag_if(f8, !route_ok, "route_reason"@)
}

pub open spec fn raw_quality(
    summary: Seq<char>,
    points: Seq<Seq<char>>,
    tags: Seq<Seq<char>>,
    source: Seq<char>,
) -> int {
    let s = trim(summary);
    score_from(
        summary_present(summary),
        points.len() as int,
        useful_tags(tags) as int,
        overlap_at_least(s, source, 18),
        overlap_at_least(s, source, 8),
        grounded_points(points, source) as int,
        keyword_hits(joined_points(s, points), action_keywords()) as int,
        s.len() as int,
    )
}

pub open spec fn quality_flags(
    summary: Seq<char>,
    points: Seq<Seq<char>>,
    tags: Seq<Seq<char>>,
    route_reason: Option<Seq<char>>,
    source: Seq<char>,
) -> Seq<Seq<char>> {
    let s = trim(summary);
    flags_from(
        summary_present(summary),
        points.len() as int,
        useful_tags(tags) as int,
        overlap_at_least(s, source, 8),
        grounded_points(points, source) as int,
        keyword_hits(joined_points(s, points), action_keywords()) as int,
        s.len() as int,
        known_route_reason(route_reason),
    )
}

/// `flags` with `name` added when `cond` holds.
pub open spec fn flag_if(flags: Seq<Seq<char>>, cond: bool, name: Seq<char>) -> Seq<Seq<char>> {
    if cond {
        flags.push(name)
    } else {
        flags
    }
}

/// The verdict on structured content: its score in thirds (at most 300),
/// its state and the unmet rules. A low score with a summary over a short
/// source (under 200 characters) is raised to 60 points and flagged
/// `short_source_context`. From 75 points the state is `success`, from 55
/// `degraded`, below `failed`.
pub open spec fn quality_verdict(
    summary: Seq<char>,
    points: Seq<Seq<char>>,
    tags: Seq<Seq<char>>,
    route_reason: Option<Seq<char>>,
    source: Seq<char>,
) -> (int, Seq<char>, Seq<Seq<char>>) {
    let raw = raw_quality(summary, points, tags, source);
    let clamped = if raw < 0 {
        0
    } else if raw > 300 {
        300
    } else {
        raw
    };
    let flags = deduped(quality_flags(summary, points, tags, route_reason, source));
    let short = clamped < 165 && trim(summary).len() > 0 && source.len() < 200;
    let score = if short {
        180
    } else {
        clamped
    };
    let all_flags = if short {
        flags.push("short_source_context"@)
    } else {
        flags
    };
    let state = if score >= 225 {
        "success"@
    } else if score >= 165 {
        "degraded"@
    } else {
        "failed"@
    };
    (score, state, all_flags)
}

/// The text the quality of an item is measured against: its raw content
/// and its stored summary.
pub open spec fn quality_source(content_raw: Seq<char>, stored_summary: Seq<char>) -> Seq<char> {
    text_output(content_raw + seq!['\n'] + stored_summary, 6000)
}

/// The verdict as the sync records it.
#[derive(Debug, Clone)]
pub struct QualityVerdict {
    /// The score in thirds of a point (300 is the full 100 points).
    pub score_thirds: u32,
    pub state: String,
    pub degraded: Vec<String>,
}

fn flag_if_exec(flags: &mut Vec<Vec<char>>, cond: bool, name: &str)
    ensures
        views(final(flags)@) == flag_if(views(old(flags)@), cond, name@),
{
    if cond {
        push_lit(flags, name);
    }
}

fn useful_tag_count(tags: &Vec<String>) -> (r: usize)
    ensures
        r == useful_tags(string_views(tags@)),
{
    let ghost tv = string_views(tags@);
    let mut n: usize = 0;
    let mut i: usize = 0;
    while i < tags.len()
        invariant
            i <= tags.len(),
            tv == string_views(tags@),
            n == useful_tags(tv.take(i as int)),
            n <= i,
        decreases tags.len() - i,
    {
        proof {
            assert(tv.take(i + 1).drop_last() =~= tv.take(i as int));
            assert(tv.take(i + 1).last() == tags@[i as int]@);
        }
        let t = trim_str(tags[i].as_str());
        if t.len() > 0 && !chars_eq(&t, &crate::text::lit("未分类")) {
            n = n + 1;
        }
        i = i + 1;
    }
    proof {
        assert(tv.take(tags.len() as int) =~= tv);
    }
    n
}

fn grounded_point_count(points: &Vec<String>, source: &Vec<char>) -> (r: usize)
    ensures
        r == grounded_points(string_views(points@), source@),
{
    let ghost pv = string_views(points@);
    let mut n: usize = 0;
    let mut i: usize = 0;
    while i < points.len()
        invariant
            i <= points.len(),
            pv == string_views(points@),
            n == grounded_points(pv.take(i as int), source@),
            n <= i,
        decreases points.len() - i,
    {
        proof {
            assert(pv.take(i + 1).drop_last() =~= pv.take(i as int));
            assert(pv.take(i + 1).last() == points@[i as int]@);
        }
        if overlap_exec(&chars_of(points[i].as_str()), source, 6) {
            n = n + 1;
        }
        i = i + 1;
    }
    proof {
        assert(pv.take(points.len() as int) =~= pv);
    }
    n
}

pub open spec fn opt_str(o: Option<&str>) -> Option<Seq<char>> {
    match o {
        Some(s) => Some(s@),
        None => None,
    }
}

fn known_route_reason_exec(r: Option<&str>) -> (b: bool)
    ensures
        b == known_route_reason(opt_str(r)),
{
    match r {
        None => true,
        Some(v) => crate::text::str_eq(v, "low_confidence") || crate::text::str_eq(
            v,
            "growth_limit_exceeded",
        ) || crate::text::str_eq(v, "keyword_match") || crate::text::str_eq(v, "fallback_default")
            || crate::text::str_eq(v, "fallback_tag_unmapped"),
    }
}

fn part_summary_exec(present: bool) -> (r: u64)
    ensures
        r == part_summary(present),
        r <= 30,
{
    reveal(part_summary);
    if present {
        30
    } else {
        0
    }
}

fn part_points_exec(n: usize) -> (r: u64)
    ensures
        r == part_points(n as int),
        r <= 30,
{
    reveal(part_points);
    if n >= 3 {
        30
    } else {
        10 * (n as u64)
    }
}

fn part_tags_exec(u: usize) -> (r: u64)
    ensures
        r == part_tags(u as int),
        r <= 15,
{
    reveal(part_tags);
    if u >= 3 {
        15
    } else {
        5 * (u as u64)
    }
}

fn part_grounding_exec(over18: bool, over8: bool) -> (r: u64)
    ensures
        r == part_grounding(over18, over8),
        r <= 45,
{
    reveal(part_grounding);
    if over18 {
        45
    } else if over8 {
        24
    } else {
        6
    }
}

fn part_evidence_exec(g: usize) -> (r: u64)
    ensures
        r == part_evidence(g as int),
        r <= 30,
{
    reveal(part_evidence);
    if g >= 2 {
        30
    } else if g == 1 {
        15
    } else {
        3
    }
}

fn part_action_exec(h: usize) -> (r: u64)
    ensures
        r == part_action(h as int),
        r <= 60,
{
    reveal(part_action);
    if h >= 3 {
        60
    } else if h >= 1 {
        36
    } else {
        12
    }
}

fn part_length_exec(sl: usize) -> (r: u64)
    ensures
        r == part_length(sl as int),
        r <= 30,
{
    reveal(part_length);
    if 80 <= sl && sl <= 260 {
        30
    } else if 50 <= sl && sl <= 360 {
        18
    } else {
        6
    }
}

fn part_readability_exec(n: usize) -> (r: u64)
    ensures
        r == part_readability(n as int),
        r <= 30,
{
    reveal(part_readability);
    if 3 <= n && n <= 6 {
        30
    } else if n > 0 {
        18
    } else {
        3
    }
}

fn score_exec(
    present: bool,
    n: usize,
    u: usize,
    over18: bool,
    over8: bool,
    g: usize,
    h: usize,
    sl: usize,
) -> (r: u64)
    ensures
        r == score_from(present, n as int, u as int, over18, over8, g as int, h as int, sl as int),
        r <= 300,
{
    part_summary_exec(present) + part_points_exec(n) + part_tags_exec(u) + part_grounding_exec(
        over18,
        over8,
    ) + part_evidence_exec(g) + part_action_exec(h) + part_length_exec(sl)
        + part_readability_exec(n) + 30
}

fn flags_exec(
    present: bool,
    n: usize,
    u: usize,
    over8: bool,
    g: usize,
    h: usize,
    sl: usize,
    route_ok: bool,
) -> (r: Vec<Vec<char>>)
    ensures
        views(r@) == flags_from(present, n as int, u as int, over8, g as int, h as int, sl as int, route_ok),
{
    let mut flags: Vec<Vec<char>> = Vec::new();
    proof {
        assert(views(flags@) =~= Seq::<Seq<char>>::empty());
    }
    flag_if_exec(&mut flags, !present, "summary");
    flag_if_exec(&mut flags, n < 3, "key_points");
    flag_if_exec(&mut flags, u < 3, "tags");
    flag_if_exec(&mut flags, !over8, "factuality");
    flag_if_exec(&mut flags, g == 0, "evidence");
    flag_if_exec(&mut flags, h == 0, "actionability");
    flag_if_exec(&mut flags, !(50 <= sl && sl <= 360), "summary_length");
    flag_if_exec(&mut flags, n == 0, "readability");
    flag_if_exec(&mut flags, !route_ok, "route_reason");
    flags
}

/// Scores structured content against the item's own text (its raw content
/// and stored summary): see `quality_verdict`.
pub fn evaluate_structured_quality(
    content_raw: &str,
    stored_summary: &str,
    summary: &str,
    key_points: &Vec<String>,
    tags: &Vec<String>,
    route_reason: Option<&str>,
) -> (r: QualityVerdict)
    ensures
        ({
            let v = quality_verdict(
                summary@,
                string_views(key_points@),
                string_views(tags@),
                opt_str(route_reason),
                quality_source(content_raw@, stored_summary@),
            );
            r.score_thirds == v.0 && r.state@ == v.1 && string_views(r.degraded@) == v.2
        }),
{
    let mut nl: Vec<char> = Vec::new();
    nl.push('\n');
    proof {
        assert(nl@ =~= seq!['\n']);
    }
    let source = text_output_chars(
        &concat(&concat(&chars_of(content_raw), &nl), &chars_of(stored_summary)),
        6000,
    );
    let s = trim_str(summary);
    let n = key_points.len();
    let u = useful_tag_count(tags);
    let g = grounded_point_count(key_points, &source);
    let s_text = string_of(&s);
    let h = action_keyword_hits(s_text.as_str(), key_points);
    let present = s.len() > 0 && !chars_eq(&s, &crate::text::lit("-"));
    let over18 = overlap_exec(&s, &source, 18);
    let over8 = overlap_exec(&s, &source, 8);
    let route_ok = known_route_reason_exec(route_reason);
    let sl = s.len();

    let score = score_exec(present, n, u, over18, over8, g, h, sl);
    let flags = flags_exec(present, n, u, over8, g, h, sl, route_ok);
    proof {
        assert(source@ == quality_source(content_raw@, stored_summary@));
        assert(s@ == trim(summary@));
    }
    let mut flags = dedupe_chars(&flags);

    let clamped: u64 = if score > 300 {
        300
    } else {
        score
    };
    let short = clamped < 165 && s.len() > 0 && source.len() < 200;
    let final_score: u64 = if short {
        180
    } else {
        clamped
    };
    if short {
        push_lit(&mut flags, "short_source_context");
    }
    let state = if final_score >= 225 {
        "success"
    } else if final_score >= 165 {
        "degraded"
    } else {
        "failed"
    };
    QualityVerdict {
        score_thirds: final_score as u32,
        state: crate::text::str_to_string(state),
        degraded: strings_of(&flags),
    }
}

/// A flag name with no white space at either end keeps its length as a key.
proof fn lemma_name_key_len(s: Seq<char>)
    requires
        s.len() > 0,
        !is_ws(s[0]),
        !is_ws(s.last()),
    ensures
        entry_key(s).len() == s.len(),
{
    crate::text::lemma_trim_noop(s);
}

/// Every flag of `flags` has a key shorter than `short_source_context`.
pub open spec fn short_keyed(flags: Seq<Seq<char>>) -> bool {
    forall|j: int| 0 <= j < flags.len() ==> entry_key(#[trigger] flags[j]).len() < 20
}

proof fn lemma_flag_if_short_keyed(flags: Seq<Seq<char>>, cond: bool, name: Seq<char>)
    requires
        short_keyed(flags),
        entry_key(name).len() < 20,
    ensures
        short_keyed(flag_if(flags, cond, name)),
{
    if cond {
        assert forall|j: int| 0 <= j < flags.push(name).len() implies entry_key(
            #[trigger] flags.push(name)[j],
        ).len() < 20 by {
            if j < flags.len() {
                assert(flags.push(name)[j] == flags[j]);
            }
        }
    }
}

proof fn lemma_flags_from_short_keyed(
    present: bool,
    n: int,
    u: int,
    over8: bool,
    g: int,
    h: int,
    sl: int,
    route_ok: bool,
)
    ensures
        short_keyed(flags_from(present, n, u, over8, g, h, sl, route_ok)),
{
    reveal_strlit("summary");
    reveal_strlit("key_points");
    reveal_strlit("tags");
    reveal_strlit("factuality");
    reveal_strlit("evidence");
    reveal_strlit("actionability");
    reveal_strlit("summary_length");
    reveal_strlit("readability");
    reveal_strlit("route_reason");
    lemma_name_key_len("summary"@);
    lemma_name_key_len("key_points"@);
    lemma_name_key_len("tags"@);
    lemma_name_key_len("factuality"@);
    lemma_name_key_len("evidence"@);
    lemma_name_key_len("actionability"@);
    lemma_name_key_len("summary_length"@);
    lemma_name_key_len("readability"@);
    lemma_name_key_len("route_reason"@);
    let f0 = Seq::<Seq<char>>::empty();
    let f1 = flag_if(f0, !present, "summary"@);
    let f2 = flag_if(f1, n < 3, "key_points"@);
    let f3 = flag_if(f2, u < 3, "tags"@);
    let f4 = flag_if(f3, !over8, "factuality"@);
    let f5 = flag_if(f4, g == 0, "evidence"@);
    let f6 = flag_if(f5, h == 0, "actionability"@);
    let f7 = flag_if(f6, !(50 <= sl <= 360), "summary_length"@);
    let f8 = flag_if(f7, n == 0, "readability"@);
    lemma_flag_if_short_keyed(f0, !present, "summary"@);
    lemma_flag_if_short_keyed(f1, n < 3, "key_points"@);
    lemma_flag_if_short_keyed(f2, u < 3, "tags"@);
    lemma_flag_if_short_keyed(f3, !over8, "factuality"@);
    lemma_flag_if_short_keyed(f4, g == 0, "evidence"@);
    lemma_flag_if_short_keyed(f5, h == 0, "actionability"@);
    lemma_flag_if_short_keyed(f6, !(50 <= sl <= 360), "summary_length"@);
    lemma_flag_if_short_keyed(f7, n == 0, "readability"@);
    lemma_flag_if_short_keyed(f8, !route_ok, "route_reason"@);
}

/// The unmet rules of a quality verdict are listed once each: no two of
/// them share a key (trimmed, ASCII lower case), so none is repeated.
pub proof fn law_quality_flags_listed_once(
    summary: Seq<char>,
    points: Seq<Seq<char>>,
    tags: Seq<Seq<char>>,
    route_reason: Option<Seq<char>>,
    source: Seq<char>,
)
    ensures
        keys_distinct(quality_verdict(summary, points, tags, route_reason, source).2),
        forall|i: int, j: int|
            #![trigger quality_verdict(summary, points, tags, route_reason, source).2[i], quality_verdict(summary, points, tags, route_reason, source).2[j]]
            0 <= i < j < quality_verdict(summary, points, tags, route_reason, source).2.len()
                ==> quality_verdict(summary, points, tags, route_reason, source).2[i]
                != quality_verdict(summary, points, tags, route_reason, source).2[j],
{
    let qf = quality_flags(summary, points, tags, route_reason, source);
    let flags = deduped(qf);
    let all = quality_verdict(summary, points, tags, route_reason, source).2;
    law_dedupe_keeps_one_per_key(qf);
    let s = trim(summary);
    lemma_flags_from_short_keyed(
        summary_present(summary),
        points.len() as int,
        useful_tags(tags) as int,
        overlap_at_least(s, source, 8),
        grounded_points(points, source) as int,
        keyword_hits(joined_points(s, points), action_keywords()) as int,
        s.len() as int,
        known_route_reason(route_reason),
    );
    assert(short_keyed(qf));
    assert forall|i: int| 0 <= i < flags.len() implies entry_key(#[trigger] flags[i]).len() < 20 by {
        let j = choose|j: int| 0 <= j < qf.len() && entry_key(#[trigger] qf[j]) == entry_key(flags[i]);
    }
    reveal_strlit("short_source_context");
    lemma_name_key_len("short_source_context"@);
    if all != flags {
        assert(all == flags.push("short_source_context"@));
        assert forall|i: int, j: int| 0 <= i < j < all.len() implies entry_key(#[trigger] all[i])
            != entry_key(#[trigger] all[j]) by {
            assert(all[i] == flags[i]);
            if j < flags.len() {
                assert(all[j] == flags[j]);
            }
        }
    }
    assert forall|i: int, j: int| 0 <= i < j < all.len() implies all[i] != all[j] by {
        assert(entry_key(all[i]) != entry_key(all[j]));
    }
}

// ── The language model ─────────────────────────────────────────────────────

/// What decides whether the language model may be called for an item.
#[derive(Debug, Clone)]
pub struct ModelGate {
    pub enabled: bool,
    pub has_api_key: bool,
    pub calls_used: usize,
    pub model_call_cap: usize,
    pub fuse_active: bool,
    pub reduce_active: bool,
}

/// Why the model is not called, if it is not: disabled, the budget fuse has
/// blown, no API key, or the run's cap of calls is reached (a cap lowered
/// by the budget is reported as such).
pub open spec fn skip_reason_of(g: ModelGate) -> Option<Seq<char>> {
    if !g.enabled {
        Some("model_disabled"@)
    } else if g.fuse_active {
        Some("budget_fused"@)
    } else if !g.has_api_key {
        Some("model_api_key_missing"@)
    } else if g.calls_used >= g.model_call_cap {
        if g.reduce_active {
            Some("budget_reduced_cap"@)
        } else {
            Some("model_call_cap_reached"@)
        }
    } else {
        None
    }
}

pub fn model_skip_reason(gate: &ModelGate) -> (r: Option<&'static str>)
    ensures
        opt_str(r) == skip_reason_of(*gate),
{
    if !gate.enabled {
        return Some("model_disabled");
    }
    if gate.fuse_active {
        return Some("budget_fused");
    }
    if !gate.has_api_key {
        return Some("model_api_key_missing");
    }
    if gate.calls_used >= gate.model_call_cap {
        if gate.reduce_active {
            return Some("budget_reduced_cap");
        }
        return Some("model_call_cap_reached");
    }
    None
}

/// Counts a call of the model, which its gate allowed.
pub fn record_model_call(gate: &mut ModelGate)
    requires
        skip_reason_of(*old(gate)) is None,
    ensures
        *final(gate) == (ModelGate { calls_used: (old(gate).calls_used + 1) as usize, ..*old(gate) }),
{
    gate.calls_used = gate.calls_used + 1;
}

/// The integer limits of the structured-content step, read from settings.
#[derive(Debug, Clone, Copy)]
pub struct ModelCallLimits {
    pub max_calls_per_run: usize,
    pub reduced_max_calls_per_run: usize,
    pub fetch_timeout_ms: u64,
}

/// The calls per run (20 unless set, at least one); the reduced calls per
/// run (half of those, rounded up, unless set; at least one and at most the
/// full count); the page-fetch timeout (8000 ms unless set, at least 1000).
pub open spec fn call_limits(max_set: usize, reduced_set: Option<usize>, timeout_set: u64) -> (nat, nat, nat) {
    let max: nat = if max_set < 1 {
        1
    } else {
        max_set as nat
    };
    let reduced_raw: nat = match reduced_set {
        Some(r) => r as nat,
        None => ((max + 1) / 2) as nat,
    };
    let reduced: nat = if reduced_raw < 1 {
        1
    } else if reduced_raw > max {
        max
    } else {
        reduced_raw
    };
    let timeout: nat = if timeout_set < 1000 {
        1000
    } else {
        timeout_set as nat
    };
    (max, reduced, timeout)
}

/// `max_setting`, `reduced_setting` and `timeout_setting` are the values of
/// `B2_G2_QWEN_MAX_CALLS_PER_RUN`, `B2_G2_QWEN_MAX_CALLS_REDUCED` and
/// `B2_G2_XHS_DEEP_FETCH_TIMEOUT_MS` as read.
pub fn model_call_limits(
    max_setting: Option<String>,
    reduced_setting: Option<String>,
    timeout_setting: Option<String>,
) -> (r: ModelCallLimits)
    ensures
        ({
            let max_set = match opt_view(max_setting) {
                Some(v) => match parse_unsigned(trim(v), usize::MAX as nat) {
                    Some(n) => n as usize,
                    None => 20usize,
                },
                None => 20usize,
            };
            let reduced_set = match opt_view(reduced_setting) {
                Some(v) => match parse_unsigned(trim(v), usize::MAX as nat) {
                    Some(n) => Some(n as usize),
                    None => None,
                },
                None => None,
            };
            let timeout_set = match opt_view(timeout_setting) {
                Some(v) => match parse_unsigned(trim(v), u64::MAX as nat) {
                    Some(n) => n as u64,
                    None => 8000u64,
                },
                None => 8000u64,
            };
            (r.max_calls_per_run as nat, r.reduced_max_calls_per_run as nat, r.fetch_timeout_ms as nat)
                == call_limits(max_set, reduced_set, timeout_set)
        }),
{
    let m = crate::config::env_usize(max_setting, 20);
    let max = if m < 1 {
        1
    } else {
        m
    };
    let half = max / 2 + max % 2;
    let reduced_raw = crate::config::env_usize(reduced_setting, half);
    let reduced = if reduced_raw < 1 {
        1
    } else if reduced_raw > max {
        max
    } else {
        reduced_raw
    };
    let t = crate::config::env_u64(timeout_setting, 8000);
    let timeout = if t < 1000 {
        1000
    } else {
        t
    };
    proof {
        assert(half == (max as nat + 1) / 2);
    }
    ModelCallLimits { max_calls_per_run: max, reduced_max_calls_per_run: reduced, fetch_timeout_ms: timeout }
}

/// The budget's effect on a run: once the fuse ratio is reached no call is
/// made; once the degrade ratio is reached (and the fuse is not blown) the
/// reduced cap applies; otherwise the full cap.
#[derive(Debug, Clone)]
pub struct BudgetGuardPolicy {
    pub model_call_cap: usize,
    pub fuse_active: bool,
    pub reduce_active: bool,
}

pub fn budget_guard_policy(
    fuse_reached: bool,
    degrade_reached: bool,
    max_calls_per_run: usize,
    reduced_max_calls_per_run: usize,
) -> (r: BudgetGuardPolicy)
    ensures
        r.fuse_active == fuse_reached,
        r.reduce_active == (!fuse_reached && degrade_reached),
        r.model_call_cap == (if fuse_reached {
            0
        } else if degrade_reached {
            reduced_max_calls_per_run
        } else {
            max_calls_per_run
        }),
{
    let reduce_active = !fuse_reached && degrade_reached;
    BudgetGuardPolicy {
        model_call_cap: if fuse_reached {
            0
        } else if reduce_active {
            reduced_max_calls_per_run
        } else {
            max_calls_per_run
        },
        fuse_active: fuse_reached,
        reduce_active,
    }
}

impl ModelGate {
    /// This gate under a (re-read) budget policy; the calls made so far are
    /// kept.
    pub fn apply_policy(&mut self, policy: &BudgetGuardPolicy)
        ensures
            final(self).enabled == old(self).enabled,
            final(self).has_api_key == old(self).has_api_key,
            final(self).calls_used == old(self).calls_used,
            final(self).model_call_cap == policy.model_call_cap,
            final(self).fuse_active == policy.fuse_active,
            final(self).reduce_active == policy.reduce_active,
    {
        self.model_call_cap = policy.model_call_cap;
        self.fuse_active = policy.fuse_active;
        self.reduce_active = policy.reduce_active;
    }
}

/// The model is called only while its gate allows it, and every allowed call
/// stays under the run's cap: no run calls the model more often than its
/// cap, and none once the budget fuse has blown.
pub proof fn law_model_calls_within_cap(g: ModelGate)
    ensures
        skip_reason_of(g) is None ==> g.enabled && g.has_api_key && !g.fuse_active
            && g.calls_used < g.model_call_cap,
        skip_reason_of(g) is None ==> skip_reason_of(
            ModelGate { calls_used: (g.calls_used + 1) as usize, ..g },
        ) is None || (g.calls_used + 1 == g.model_call_cap),
{
}

// ── Structured content ──────────────────────────────────────────────────────

/// What asking the model for an item gave.
#[derive(Debug, Clone)]
pub enum ModelStep {
    /// The model was not asked, for this reason.
    Skipped { reason: String },
    /// The model answered with these fields.
    Output {
        summary: String,
        key_points: Vec<String>,
        tags: Vec<String>,
        degraded_fields: Vec<String>,
    },
    /// The model answered with nothing.
    Empty,
    /// The model could not be reached or its answer not read.
    Unavailable,
}

/// The stored fields of an item that its structured content starts from.
#[derive(Debug, Clone)]
pub struct ContentRow {
    pub content_raw: String,
    pub summary: String,
    pub key_points: Vec<String>,
    pub tags: Vec<String>,
    pub labels: Vec<String>,
    pub cover_url: Option<String>,
    pub image_urls: Vec<String>,
}

/// The content written to an item's page.
#[derive(Debug, Clone)]
pub struct StructuredContent {
    pub summary: String,
    pub key_points: Vec<String>,
    pub tags: Vec<String>,
    /// The quality score in thirds of a point.
    pub quality_score_thirds: u32,
    pub quality_state: String,
    pub degraded_fields: Vec<String>,
    pub content_source: String,
}

/// The tags of an item: its own, else its labels.
pub open spec fn row_tags(row: ContentRow) -> Seq<Seq<char>> {
    let t = string_list(string_views(row.tags@), 8, 50);
    if t.len() == 0 {
        string_list(string_views(row.labels@), 8, 50)
    } else {
        t
    }
}

/// The summary, key points, tags, flags and source after the model's step:
/// each non-empty field of an answer replaces the stored one, an empty one
/// is flagged, and the answer's own flags are added.
pub open spec fn after_model(row: ContentRow, step: ModelStep) -> (
    Seq<char>,
    Seq<Seq<char>>,
    Seq<Seq<char>>,
    Seq<Seq<char>>,
    Seq<char>,
) {
    let summary = text_output(row.summary@, 5000);
    let points = string_list(string_views(row.key_points@), 6, 200);
    let tags = row_tags(row);
    match step {
        ModelStep::Skipped { reason } => (summary, points, tags, seq![reason@], "rules"@),
        ModelStep::Empty => (summary, points, tags, seq!["model_empty"@], "rules"@),
        ModelStep::Unavailable => (summary, points, tags, seq!["model_unavailable"@], "rules"@),
        ModelStep::Output { summary: ms, key_points: mp, tags: mt, degraded_fields: md } => {
            let s2 = text_output(ms@, 5000);
            let p2 = string_list(string_views(mp@), 6, 200);
            let t2 = string_list(string_views(mt@), 8, 50);
            let f1 = flag_if(Seq::empty(), s2.len() == 0, "summary"@);
            let f2 = flag_if(f1, p2.len() == 0, "key_points"@);
            let f3 = flag_if(f2, t2.len() == 0, "tags"@);
            (
                if s2.len() > 0 {
                    s2
                } else {
                    summary
                },
                if p2.len() > 0 {
                    p2
                } else {
                    points
                },
                if t2.len() > 0 {
                    t2
                } else {
                    tags
                },
                f3 + kept_trimmed(string_views(md@)),
                "qwen"@,
            )
        },
    }
}

/// An item has no picture: no cover and no image.
pub open spec fn lacks_images(row: ContentRow) -> bool {
    (match row.cover_url {
        Some(c) => trim(c@).len() == 0,
        None => true,
    }) && row.image_urls.len() == 0
}

/// The final summary, key points and tags: a blank summary becomes `-`,
/// missing key points and tags fall back to the stored ones (tags to the
/// labels, then to the unclassified tag).
pub open spec fn final_fields(row: ContentRow, step: ModelStep) -> (
    Seq<char>,
    Seq<Seq<char>>,
    Seq<Seq<char>>,
) {
    let (s, p, t, _f, _src) = after_model(row, step);
    let s2 = if trim(s).len() == 0 {
        "-"@
    } else {
        s
    };
    let p2 = if p.len() == 0 {
        string_list(string_views(row.key_points@), 6, 200)
    } else {
        p
    };
    let t2 = if t.len() == 0 {
        string_list(string_views(row.labels@), 8, 50)
    } else {
        t
    };
    let t3 = if t2.len() == 0 {
        seq!["未分类"@]
    } else {
        t2
    };
    (s2, p2, t3)
}

/// The score, state and flags of the content: the quality verdict, with a
/// missing API key forcing `failed` and at most 40 points, flags
/// deduplicated, and `success` lowered to `degraded` when anything is
/// flagged.
pub open spec fn content_verdict(row: ContentRow, route_reason: Option<Seq<char>>, step: ModelStep) -> (
    int,
    Seq<char>,
    Seq<Seq<char>>,
) {
    let (s, p, t) = final_fields(row, step);
    let flags0 = after_model(row, step).3;
    let flags1 = flag_if(flags0, lacks_images(row), "images"@);
    let v = quality_verdict(s, p, t, route_reason, quality_source(row.content_raw@, row.summary@));
    let all = flags1 + v.2;
    let key_missing = all.contains("model_api_key_missing"@);
    let score = if key_missing && v.0 > 120 {
        120
    } else {
        v.0
    };
    let state = if key_missing {
        "failed"@
    } else {
        v.1
    };
    let flags = deduped(all);
    let state2 = if state == "success"@ && flags.len() > 0 {
        "degraded"@
    } else {
        state
    };
    (score, state2, flags)
}

/// The degraded fields recorded for an item are listed once each: no two
/// share a key (trimmed, ASCII lower case), so none is repeated.
pub proof fn law_degraded_fields_listed_once(row: ContentRow, route_reason: Option<Seq<char>>, step: ModelStep)
    ensures
        keys_distinct(content_verdict(row, route_reason, step).2),
        forall|i: int, j: int|
            #![trigger content_verdict(row, route_reason, step).2[i], content_verdict(row, route_reason, step).2[j]]
            0 <= i < j < content_verdict(row, route_reason, step).2.len() ==> content_verdict(
                row,
                route_reason,
                step,
            ).2[i] != content_verdict(row, route_reason, step).2[j],
{
    let d = content_verdict(row, route_reason, step).2;
    let (s, p, t) = final_fields(row, step);
    let flags0 = after_model(row, step).3;
    let flags1 = flag_if(flags0, lacks_images(row), "images"@);
    let v = quality_verdict(s, p, t, route_reason, quality_source(row.content_raw@, row.summary@));
    assert(d == deduped(flags1 + v.2));
    law_dedupe_keeps_one_per_key(flags1 + v.2);
    assert forall|i: int, j: int| 0 <= i < j < d.len() implies d[i] != d[j] by {
        assert(entry_key(d[i]) != entry_key(d[j]));
    }
}

fn step_fields(row: &ContentRow, step: &ModelStep) -> (r: (
    Vec<char>,
    Vec<Vec<char>>,
    Vec<Vec<char>>,
    Vec<Vec<char>>,
    &'static str,
))
    ensures
        (r.0@, views(r.1@), views(r.2@), views(r.3@), r.4@) == after_model(*row, *step),
{
    let summary = text_output_chars(&chars_of(row.summary.as_str()), 5000);
    let points = string_list_chars(&chars_list(&row.key_points), 6, 200);
    let mut tags = string_list_chars(&chars_list(&row.tags), 8, 50);
    if tags.len() == 0 {
        tags = string_list_chars(&chars_list(&row.labels), 8, 50);
    }
    let mut flags: Vec<Vec<char>> = Vec::new();
    match step {
        ModelStep::Skipped { reason } => {
            flags.push(chars_of(reason.as_str()));
            proof {
                assert(views(flags@) =~= seq![reason@]);
            }
            (summary, points, tags, flags, "rules")
        },
        ModelStep::Empty => {
            push_lit(&mut flags, "model_empty");
            proof {
                assert(views(flags@) =~= seq!["model_empty"@]);
            }
            (summary, points, tags, flags, "rules")
        },
        ModelStep::Unavailable => {
            push_lit(&mut flags, "model_unavailable");
            proof {
                assert(views(flags@) =~= seq!["model_unavailable"@]);
            }
            (summary, points, tags, flags, "rules")
        },
        ModelStep::Output { summary: ms, key_points: mp, tags: mt, degraded_fields: md } => {
            let s2 = text_output_chars(&chars_of(ms.as_str()), 5000);
            let p2 = string_list_chars(&chars_list(mp), 6, 200);
            let t2 = string_list_chars(&chars_list(mt), 8, 50);
            proof {
                assert(views(flags@) =~= Seq::<Seq<char>>::empty());
            }
            flag_if_exec(&mut flags, s2.len() == 0, "summary");
            flag_if_exec(&mut flags, p2.len() == 0, "key_points");
            flag_if_exec(&mut flags, t2.len() == 0, "tags");
            let extra = keep_trimmed(&chars_list(md));
            let ghost before = views(flags@);
            let mut i: usize = 0;
            while i < extra.len()
                invariant
                    i <= extra.len(),
                    views(flags@) == before + views(extra@).take(i as int),
                decreases extra.len() - i,
            {
                let ghost b = views(flags@);
                flags.push(crate::text::copy_chars(&extra[i]));
                proof {
                    assert(views(flags@) =~= b.push(extra@[i as int]@));
                    assert(views(extra@).take(i + 1) =~= views(extra@).take(i as int).push(
                        extra@[i as int]@,
                    ));
                }
                i = i + 1;
            }
            proof {
                assert(views(extra@).take(extra.len() as int) =~= views(extra@));
            }
            let fs = if s2.len() > 0 {
                s2
            } else {
                summary
            };
            let fp = if p2.len() > 0 {
                p2
            } else {
                points
            };
            let ft = if t2.len() > 0 {
                t2
            } else {
                tags
            };
            (fs, fp, ft, flags, "qwen")
        },
    }
}

/// Completes an item's structured content after the model's step (see
/// `final_fields` and `content_verdict`); the content comes from the model
/// when it answered, else from the rules.
pub fn finish_structured_content(row: &ContentRow, route_reason: Option<&str>, step: &ModelStep) -> (r:
    StructuredContent)
    ensures
        (r.summary@, string_views(r.key_points@), string_views(r.tags@)) == final_fields(
            *row,
            *step,
        ),
        r.content_source@ == after_model(*row, *step).4,
        ({
            let v = content_verdict(*row, opt_str(route_reason), *step);
            r.quality_score_thirds == v.0 && r.quality_state@ == v.1 && string_views(
                r.degraded_fields@,
            ) == v.2
        }),
{
    let (s, p, t, mut flags, source) = step_fields(row, step);
    let s2 = if trim_chars(&s).len() == 0 {
        crate::text::lit("-")
    } else {
        s
    };
    let p2 = if p.len() == 0 {
        string_list_chars(&chars_list(&row.key_points), 6, 200)
    } else {
        p
    };
    let t2 = if t.len() == 0 {
        string_list_chars(&chars_list(&row.labels), 8, 50)
    } else {
        t
    };
    let mut t3 = t2;
    if t3.len() == 0 {
        push_lit(&mut t3, "未分类");
        proof {
            assert(views(t3@) =~= seq!["未分类"@]);
        }
    }
    let no_cover = match &row.cover_url {
        Some(c) => trim_str(c.as_str()).len() == 0,
        None => true,
    };
    flag_if_exec(&mut flags, no_cover && row.image_urls.len() == 0, "images");
    let summary = string_of(&s2);
    let key_points = strings_of(&p2);
    let tags = strings_of(&t3);
    let verdict = evaluate_structured_quality(
        row.content_raw.as_str(),
        row.summary.as_str(),
        summary.as_str(),
        &key_points,
        &tags,
        route_reason,
    );
    let qflags = chars_list(&verdict.degraded);
    let ghost f1 = views(flags@);
    let mut i: usize = 0;
    while i < qflags.len()
        invariant
            i <= qflags.len(),
            views(flags@) == f1 + views(qflags@).take(i as int),
        decreases qflags.len() - i,
    {
        let ghost b = views(flags@);
        flags.push(crate::text::copy_chars(&qflags[i]));
        proof {
            assert(views(flags@) =~= b.push(qflags@[i as int]@));
            assert(views(qflags@).take(i + 1) =~= views(qflags@).take(i as int).push(
                qflags@[i as int]@,
            ));
        }
        i = i + 1;
    }
    proof {
        assert(views(qflags@).take(qflags.len() as int) =~= views(qflags@));
    }
    let key_missing = list_contains(&flags, &crate::text::lit("model_api_key_missing"));
    let score = if key_missing && verdict.score_thirds > 120 {
        120
    } else {
        verdict.score_thirds
    };
    let state: Vec<char> = if key_missing {
        crate::text::lit("failed")
    } else {
        chars_of(verdict.state.as_str())
    };
    let deduped_flags = dedupe_chars(&flags);
    let state2 = if chars_eq(&state, &crate::text::lit("success")) && deduped_flags.len() > 0 {
        crate::text::lit("degraded")
    } else {
        state
    };
    StructuredContent {
        summary,
        key_points,
        tags,
        quality_score_thirds: score,
        quality_state: string_of(&state2),
        degraded_fields: strings_of(&deduped_flags),
        content_source: crate::text::str_to_string(source),
    }
}

// ── Asking the model ────────────────────────────────────────────────────────

/// The model is asked only with a key and a text to read.
pub fn qwen_call_needed(api_key: &str, source_text: &str) -> (r: bool)
    ensures
        r == (trim(api_key@).len() > 0 && trim(source_text@).len() > 0),
{
    trim_str(api_key).len() > 0 && trim_str(source_text).len() > 0
}

/// The instructions given to the model, with the route reason (`null`
/// when there is none) and the text to read.
pub open spec fn prompt_of(route_reason: Option<Seq<char>>, source_text: Seq<char>) -> Seq<char> {
    "你是知识提炼引擎。请只输出 JSON，对应字段：summary,key_points,tags,degraded_fields。summary 要中文 80-260 字，强调结论与可执行动作；key_points 输出 3-6 条，每条 <= 60 字；tags 输出 3-8 个，不要泛化标签。不得编造原文没有的事实。若信息不足，请把对应字段写入 degraded_fields。route_reason: "@
        + match route_reason {
        Some(r) => r,
        None => "null"@,
    } + "。原文如下：\n"@ + source_text
}

pub fn qwen_prompt(route_reason: Option<&str>, source_text: &str) -> (r: String)
    ensures
        r@ == prompt_of(opt_str(route_reason), source_text@),
{
    let reason = match route_reason {
        Some(r) => chars_of(r),
        None => crate::text::lit("null"),
    };
    let head = crate::text::lit(
        "你是知识提炼引擎。请只输出 JSON，对应字段：summary,key_points,tags,degraded_fields。summary 要中文 80-260 字，强调结论与可执行动作；key_points 输出 3-6 条，每条 <= 60 字；tags 输出 3-8 个，不要泛化标签。不得编造原文没有的事实。若信息不足，请把对应字段写入 degraded_fields。route_reason: ",
    );
    let body = concat(
        &concat(&concat(&head, &reason), &crate::text::lit("。原文如下：\n")),
        &chars_of(source_text),
    );
    string_of(&body)
}

/// One step of a JSON pointer: a member of an object, an item of an array.
pub open spec fn pointer_step(v: Option<JsonValue>, token: Seq<char>, index: int) -> Option<JsonValue> {
    match v {
        Some(JsonValue::Object(entries)) => field(entries@, token),
        Some(x) => item_at(x, index),
        None => None,
    }
}

/// The text at `/choices/0/message/content` of the model's reply, empty
/// when there is none.
pub open spec fn reply_content(envelope: JsonValue) -> Seq<char> {
    match str_in(
        get_in(get_in(pointer_step(get(envelope, "choices"@), "0"@, 0), "message"@), "content"@),
    ) {
        Some(t) => t,
        None => Seq::empty(),
    }
}

pub fn qwen_reply_content(envelope: &JsonValue) -> (r: String)
    ensures
        r@ == reply_content(*envelope),
{
    let choice: Option<&JsonValue> = match json_get(envelope, "choices") {
        Some(c) => match c {
            JsonValue::Object(_) => json_get(c, "0"),
            _ => json_item(c, 0),
        },
        None => None,
    };
    match choice {
        Some(ch) => match json_get(ch, "message") {
            Some(m) => match json_get_str(m, "content") {
                Some(t) => crate::text::str_to_string(t.as_str()),
                None => String::new(),
            },
            None => String::new(),
        },
        None => String::new(),
    }
}

/// The JSON object inside a model reply: the trimmed reply when it opens with
/// `{` and closes with `}`, else the part from its first `{` to its last `}`,
/// and nothing when there is no such part.
pub open spec fn json_object_text(raw: Seq<char>) -> Option<Seq<char>> {
    let t = trim(raw);
    if t.len() > 0 && t[0] == '{' && t.last() == '}' {
        Some(t)
    } else {
        let s = index_of_char(t, '{');
        let e = last_index_of_char(t, '}', t.len() as int);
        if s >= t.len() || e < 0 || e <= s {
            None
        } else {
            Some(t.subrange(s, e + 1))
        }
    }
}

pub fn extract_json_object_text(raw: &str) -> (r: Option<String>)
    ensures
        match r {
            Some(s) => json_object_text(raw@) == Some(s@),
            None => json_object_text(raw@) is None,
        },
{
    let t = trim_str(raw);
    let n = t.len();
    if n > 0 && t[0] == '{' && t[n - 1] == '}' {
        return Some(string_of(&t));
    }
    let s = index_of_char_exec(&t, '{');
    proof {
        lemma_index_of_char_bounds(t@, '{');
    }
    if s >= n {
        return None;
    }
    match last_index_of_char_exec(&t, '}') {
        Some(e) => {
            proof {
                lemma_last_index_bounds(t@, '}', n as int);
            }
            if e <= s {
                None
            } else {
                Some(string_of(&slice_chars(&t, s, e + 1)))
            }
        },
        None => None,
    }
}

/// The fields of the model's answer: its trimmed summary and its lists.
pub fn qwen_output_step(payload: &JsonValue) -> (r: ModelStep)
    ensures
        r matches ModelStep::Output { summary, key_points, tags, degraded_fields } && summary@
            == trim(
            match str_in(get(*payload, "summary"@)) {
                Some(t) => t,
                None => Seq::empty(),
            },
        ) && string_views(key_points@) == string_list_of(get(*payload, "key_points"@))
            && string_views(tags@) == string_list_of(get(*payload, "tags"@)) && string_views(
            degraded_fields@,
        ) == string_list_of(get(*payload, "degraded_fields"@)),
{
    let summary = match json_get_str(payload, "summary") {
        Some(t) => string_of(&trim_chars(&chars_of(t.as_str()))),
        None => String::new(),
    };
    ModelStep::Output {
        summary,
        key_points: extract_string_list(json_get(payload, "key_points")),
        tags: extract_string_list(json_get(payload, "tags")),
        degraded_fields: extract_string_list(json_get(payload, "degraded_fields")),
    }
}

/// The first of the members `keys` that is an unsigned integer, else 0.
pub open spec fn first_count(v: JsonValue, keys: Seq<Seq<char>>) -> u64
    decreases keys.len(),
{
    if keys.len() == 0 {
        0
    } else {
        match get(v, keys[0]) {
            Some(x) => match unsigned_of(x) {
                Some(n) => n,
                None => first_count(v, keys.drop_first()),
            },
            None => first_count(v, keys.drop_first()),
        }
    }
}

fn first_count_exec(v: &JsonValue, keys: &Vec<&str>) -> (r: u64)
    ensures
        r == first_count(*v, crate::collectors::xhs_feed::strs_view(keys@)),
{
    let ghost kv = crate::collectors::xhs_feed::strs_view(keys@);
    let mut i: usize = 0;
    proof {
        assert(kv.skip(0) =~= kv);
    }
    while i < keys.len()
        invariant
            i <= keys.len(),
            kv == crate::collectors::xhs_feed::strs_view(keys@),
            first_count(*v, kv) == first_count(*v, kv.skip(i as int)),
        decreases keys.len() - i,
    {
        proof {
            assert(kv.skip(i as int).drop_first() =~= kv.skip(i + 1));
            assert(kv.skip(i as int)[0] == keys@[i as int]@);
        }
        match json_get(v, keys[i]) {
            Some(x) => match json_u64(x) {
                Some(n) => {
                    return n;
                },
                None => {},
            },
            None => {},
        }
        i = i + 1;
    }
    0
}

/// The tokens a model call used, in and out, from the reply's `usage`
/// (under any of the names providers use); none when the reply reports no
/// usage or none at all.
pub open spec fn usage_tokens(envelope: JsonValue) -> Option<(u64, u64)> {
    match get(envelope, "usage"@) {
        None => None,
        Some(u) => {
            let tin = first_count(u, seq!["prompt_tokens"@, "input_tokens"@, "promptTokens"@]);
            let tout = first_count(
                u,
                seq!["completion_tokens"@, "output_tokens"@, "completionTokens"@],
            );
            if tin == 0 && tout == 0 {
                None
            } else {
                Some((tin, tout))
            }
        },
    }
}

pub fn qwen_usage_tokens(envelope: &JsonValue) -> (r: Option<(u64, u64)>)
    ensures
        r == usage_tokens(*envelope),
{
    let usage = match json_get(envelope, "usage") {
        Some(u) => u,
        None => {
            return None;
        },
    };
    let in_keys = vec!["prompt_tokens", "input_tokens", "promptTokens"];
    let out_keys = vec!["completion_tokens", "output_tokens", "completionTokens"];
    proof {
        assert(crate::collectors::xhs_feed::strs_view(in_keys@) =~= seq![
            "prompt_tokens"@,
            "input_tokens"@,
            "promptTokens"@,
        ]);
        assert(crate::collectors::xhs_feed::strs_view(out_keys@) =~= seq![
            "completion_tokens"@,
            "output_tokens"@,
            "completionTokens"@,
        ]);
    }
    let tin = first_count_exec(usage, &in_keys);
    let tout = first_count_exec(usage, &out_keys);
    if tin == 0 && tout == 0 {
        None
    } else {
        Some((tin, tout))
    }
}

// ── The text the model reads ────────────────────────────────────────────────

pub open spec fn blank_or_dash(s: Seq<char>) -> bool {
    trim(s).len() == 0 || trim(s) == "-"@
}

/// The item's own text: its raw content, else its summary, else its title
/// (each skipped when blank or `-`).
pub open spec fn ai_base_text(content_raw: Seq<char>, summary: Seq<char>, title: Seq<char>) -> Seq<
    char,
> {
    if !blank_or_dash(content_raw) {
        content_raw
    } else if !blank_or_dash(summary) {
        summary
    } else {
        title
    }
}

/// The text the model reads: the item's own text, with the text fetched
/// from its page on a new line when that is not blank, cleaned and cut to
/// 6000 characters.
pub fn ai_source_text(content_raw: &str, summary: &str, title: &str, fetched: Option<&str>) -> (r:
    String)
    ensures
        r@ == text_output(
            match fetched {
                Some(f) => if trim(f@).len() > 0 {
                    ai_base_text(content_raw@, summary@, title@) + "\n"@ + f@
                } else {
                    ai_base_text(content_raw@, summary@, title@)
                },
                None => ai_base_text(content_raw@, summary@, title@),
            },
            6000,
        ),
{
    let dash = crate::text::lit("-");
    let c = trim_str(content_raw);
    let s = trim_str(summary);
    let base = if !(c.len() == 0 || chars_eq(&c, &dash)) {
        chars_of(content_raw)
    } else if !(s.len() == 0 || chars_eq(&s, &dash)) {
        chars_of(summary)
    } else {
        chars_of(title)
    };
    let text = match fetched {
        Some(f) => if trim_str(f).len() > 0 {
            concat(&concat(&base, &crate::text::lit("\n")), &chars_of(f))
        } else {
            base
        },
        None => base,
    };
    string_of(&text_output_chars(&text, 6000))
}

/// A Xiaohongshu item's page is fetched only when deep fetching is on and
/// it has a link.
pub fn wants_deep_fetch(enabled: bool, source: &str, source_url: Option<&str>) -> (r: bool)
    ensures
        r == (enabled && source@ == "xhs"@ && source_url is Some),
{
    enabled && crate::text::str_eq(source, "xhs") && source_url.is_some()
}

} // verus!
