//! Collecting from the profile tabs in the browser, the fallback when the
//! feed API refuses: the scrape's limits, how its output is checked, and
//! how the notes it found become items; and how a failed AppleScript run is
//! reported.

use vstd::prelude::*;
use crate::collectors::items::CollectedItem;
use crate::collectors::xhs::{
    normalize_content_text, normalize_profile_item_url, opt_view, profile_item_url, read_env_u32,
};
use crate::error::BackendError;
use crate::num::parse_unsigned;
use crate::text::{
    ascii_lower, ascii_lower_chars, chars_eq, chars_of, collapse_ws, concat, contains,
    contains_chars, list_contains, lit, string_of, string_views, take_chars, take_prefix, trim,
    trim_chars,
};

verus! {

// ── AppleScript ─────────────────────────────────────────────────────────────

/// What a failed run printed: its output and its error output, trimmed,
/// joined by ` | ` when both are there.
pub open spec fn merged_output(stdout: Seq<char>, stderr: Seq<char>) -> Seq<char> {
    let o = trim(stdout);
    let e = trim(stderr);
    if e.len() == 0 {
        o
    } else if o.len() == 0 {
        e
    } else {
        o + " | "@ + e
    }
}

/// The message when Chrome refuses JavaScript from AppleScript.
pub open spec fn blocked_message() -> Seq<char> {
    "xhs collector blocked: enable Chrome menu `View -> Developer -> Allow JavaScript from Apple Events`, or configure XHS_COOKIE/XHS_COOKIE_FILE to run without AppleScript"@
}

/// The error of a failed `osascript` run: a validation error when Chrome
/// refuses JavaScript from Apple Events, an internal one otherwise.
pub fn osascript_error(stdout: &str, stderr: &str) -> (r: BackendError)
    ensures
        ({
            let m = merged_output(stdout@, stderr@);
            if contains(m, "AppleScript 执行 JavaScript 的功能已关闭"@) || contains(
                m,
                "JavaScript from Apple Events"@,
            ) {
                r matches BackendError::Validation(v) && v@ == blocked_message()
            } else {
                r matches BackendError::Internal(v) && v@ == "xhs osascript failed: "@ + m
            }
        }),
{
    let o = trim_chars(&chars_of(stdout));
    let e = trim_chars(&chars_of(stderr));
    let merged = if e.len() == 0 {
        o
    } else if o.len() == 0 {
        e
    } else {
        concat(&concat(&o, &lit(" | ")), &e)
    };
    if contains_chars(&merged, &lit("AppleScript 执行 JavaScript 的功能已关闭")) || contains_chars(
        &merged,
        &lit("JavaScript from Apple Events"),
    ) {
        BackendError::Validation(
            crate::text::str_to_string(
                "xhs collector blocked: enable Chrome menu `View -> Developer -> Allow JavaScript from Apple Events`, or configure XHS_COOKIE/XHS_COOKIE_FILE to run without AppleScript",
            ),
        )
    } else {
        BackendError::Internal(string_of(&concat(&lit("xhs osascript failed: "), &merged)))
    }
}

// ── Limits ──────────────────────────────────────────────────────────────────

pub open spec fn clamp_u32(v: u32, lo: u32, hi: u32) -> u32 {
    if v < lo {
        lo
    } else if v > hi {
        hi
    } else {
        v
    }
}

pub open spec fn setting_u32(value: Option<Seq<char>>, default: u32) -> u32 {
    match value {
        Some(v) => match parse_unsigned(v, u32::MAX as nat) {
            Some(n) => n as u32,
            None => default,
        },
        None => default,
    }
}

/// The scroll rounds (12 unless set, within 4 to 30) and the most items (120
/// unless set, within 20 to 500) of a profile scrape.
pub fn profile_scrape_limits(rounds_setting: Option<String>, max_items_setting: Option<String>) -> (r: (
    u32,
    u32,
))
    ensures
        r.0 == clamp_u32(setting_u32(opt_view(rounds_setting), 12), 4, 30),
        r.1 == clamp_u32(setting_u32(opt_view(max_items_setting), 120), 20, 500),
{
    let rounds = read_env_u32(rounds_setting, 12);
    let max_items = read_env_u32(max_items_setting, 120);
    let r = if rounds < 4 {
        4
    } else if rounds > 30 {
        30
    } else {
        rounds
    };
    let m = if max_items < 20 {
        20
    } else if max_items > 500 {
        500
    } else {
        max_items
    };
    (r, m)
}

// ── Scrape output ───────────────────────────────────────────────────────────

/// The trimmed output of a scrape of `tab`, or the error for an empty one
/// (nothing, `undefined` in any ASCII case, or `null`).
pub fn profile_scrape_output(output: &str, tab: &str) -> (r: Result<String, BackendError>)
    ensures
        ({
            let t = trim(output@);
            if t.len() == 0 || ascii_lower(t) == "undefined"@ || t == "null"@ {
                r matches Err(BackendError::Validation(m)) && m@ == "xhs profile tab scrape empty: tab="@
                    + tab@
            } else {
                r matches Ok(s) && s@ == t
            }
        }),
{
    let t = trim_chars(&chars_of(output));
    if t.len() == 0 || chars_eq(&ascii_lower_chars(&t), &lit("undefined")) || chars_eq(&t, &lit("null")) {
        Err(BackendError::Validation(string_of(&concat(&lit("xhs profile tab scrape empty: tab="), &chars_of(tab)))))
    } else {
        Ok(string_of(&t))
    }
}

/// The error a scrape reported for `tab`.
pub fn profile_scrape_error(tab: &str, error: &str, detail: Option<&str>) -> (r: BackendError)
    ensures
        r matches BackendError::Validation(m) && m@ == "xhs profile tab scrape failed: tab="@ + tab@
            + ", error="@ + error@ + ", detail="@ + match detail {
            Some(d) => d@,
            None => Seq::empty(),
        },
{
    let d = match detail {
        Some(d) => chars_of(d),
        None => Vec::new(),
    };
    let m = concat(
        &concat(
            &concat(&concat(&concat(&lit("xhs profile tab scrape failed: tab="), &chars_of(tab)), &lit(", error=")), &chars_of(error)),
            &lit(", detail="),
        ),
        &d,
    );
    BackendError::Validation(string_of(&m))
}

// ── Items ───────────────────────────────────────────────────────────────────

/// A note found on a profile tab, by its id, link and text.
#[derive(Debug, Clone)]
pub struct ProfileNote {
    pub id: String,
    pub href: String,
    pub text: String,
}

/// The fields of a collected item, as views.
pub open spec fn item_fields(it: CollectedItem) -> (
    Seq<char>,
    Seq<char>,
    Option<Seq<char>>,
    Seq<char>,
    Option<Seq<char>>,
    Option<Seq<char>>,
    nat,
) {
    (
        it.external_id@,
        it.source_url@,
        opt_view(it.title),
        it.content_raw@,
        opt_view(it.published_at),
        opt_view(it.cover_url),
        it.image_urls@.len(),
    )
}

/// The item of a note from a profile tab: its trimmed id, its link without
/// fragment, its text collapsed (the first 80 characters as title), or
/// `xhs note {id}` when it has no text; no time and no pictures.
pub open spec fn profile_item_fields(id: Seq<char>, href: Seq<char>, text: Seq<char>) -> (
    Seq<char>,
    Seq<char>,
    Option<Seq<char>>,
    Seq<char>,
    Option<Seq<char>>,
    Option<Seq<char>>,
    nat,
) {
    let i = trim(id);
    let ct = trim(collapse_ws(text));
    (
        i,
        profile_item_url(href, i),
        if ct.len() > 0 {
            Some(take_chars(ct, 80))
        } else {
            None
        },
        if ct.len() > 0 {
            ct
        } else {
            "xhs note "@ + i
        },
        None,
        None,
        0,
    )
}

fn profile_item(note: &ProfileNote) -> (r: CollectedItem)
    ensures
        item_fields(r) == profile_item_fields(note.id@, note.href@, note.text@),
{
    let id = string_of(&trim_chars(&chars_of(note.id.as_str())));
    let source_url = normalize_profile_item_url(note.href.as_str(), id.as_str());
    let content_text = normalize_content_text(note.text.as_str());
    let ct = chars_of(content_text.as_str());
    let (title, content_raw) = if ct.len() > 0 {
        (Some(string_of(&take_prefix(&ct, 80))), content_text)
    } else {
        (None, string_of(&concat(&lit("xhs note "), &chars_of(id.as_str()))))
    };
    CollectedItem {
        external_id: id,
        source_url,
        title,
        content_raw,
        published_at: None,
        cover_url: None,
        image_urls: Vec::new(),
    }
}

/// Taking in the first `n` notes of a tab: notes with a blank id, notes it
/// was told to stop at, and notes seen before are skipped; the others are
/// remembered and kept (they carry no time, so every window holds them).
/// The result is the ids kept and the ids seen.
pub open spec fn profile_absorb_upto(
    notes: Seq<ProfileNote>,
    stop_ids: Seq<Seq<char>>,
    seen: Seq<Seq<char>>,
    n: int,
) -> (Seq<int>, Seq<Seq<char>>)
    decreases n,
{
    if n <= 0 {
        (Seq::empty(), seen)
    } else {
        let (kept, s) = profile_absorb_upto(notes, stop_ids, seen, n - 1);
        let id = trim(notes[n - 1].id@);
        if id.len() == 0 || stop_ids.contains(id) || s.contains(id) {
            (kept, s)
        } else {
            (kept.push(n - 1), s.push(id))
        }
    }
}

/// Takes in the notes of one tab: the items of those kept are appended to
/// `out` in order, and their ids to `seen`.
pub fn profile_tab_step(
    notes: &Vec<ProfileNote>,
    stop_ids: &Vec<String>,
    seen: &mut Vec<String>,
    out: &mut Vec<CollectedItem>,
)
    ensures
        ({
            let (kept, s) = profile_absorb_upto(
                notes@,
                string_views(stop_ids@),
                string_views(old(seen)@),
                notes@.len() as int,
            );
            &&& string_views(final(seen)@) == s
            &&& final(out)@.len() == old(out)@.len() + kept.len()
            &&& final(out)@.take(old(out)@.len() as int) == old(out)@
            &&& forall|k: int|
                0 <= k < kept.len() ==> 0 <= #[trigger] kept[k] < notes@.len() && item_fields(
                    final(out)@[old(out)@.len() + k],
                ) == profile_item_fields(
                    notes@[kept[k]].id@,
                    notes@[kept[k]].href@,
                    notes@[kept[k]].text@,
                )
        }),
{
    let ghost stops = string_views(stop_ids@);
    let ghost seen0 = string_views(seen@);
    let ghost out0 = out@;
    let mut i: usize = 0;
    while i < notes.len()
        invariant
            i <= notes.len(),
            stops == string_views(stop_ids@),
            ({
                let (kept, s) = profile_absorb_upto(notes@, stops, seen0, i as int);
                &&& string_views(seen@) == s
                &&& out@.len() == out0.len() + kept.len()
                &&& out@.take(out0.len() as int) == out0
                &&& forall|k: int|
                    0 <= k < kept.len() ==> 0 <= #[trigger] kept[k] < i && item_fields(
                        out@[out0.len() + k],
                    ) == profile_item_fields(
                        notes@[kept[k]].id@,
                        notes@[kept[k]].href@,
                        notes@[kept[k]].text@,
                    )
            }),
        decreases notes.len() - i,
    {
        let id = trim_chars(&chars_of(notes[i].id.as_str()));
        if id.len() > 0 && !list_contains(&crate::text::chars_list(stop_ids), &id) && !list_contains(
            &crate::text::chars_list(seen),
            &id,
        ) {
            let ghost before_seen = string_views(seen@);
            let ghost before_out = out@;
            seen.push(string_of(&id));
            let item = profile_item(&notes[i]);
            out.push(item);
            proof {
                assert(string_views(seen@) =~= before_seen.push(id@));
                assert(out@.take(out0.len() as int) =~= before_out.take(out0.len() as int));
                let (kept, s) = profile_absorb_upto(notes@, stops, seen0, i as int);
                assert forall|k: int| 0 <= k < kept.len() + 1 implies 0 <= #[trigger] kept.push(i as int)[k] < i + 1
                    && item_fields(out@[out0.len() + k]) == profile_item_fields(
                    notes@[kept.push(i as int)[k]].id@,
                    notes@[kept.push(i as int)[k]].href@,
                    notes@[kept.push(i as int)[k]].text@,
                ) by {
                    if k < kept.len() {
                        assert(kept.push(i as int)[k] == kept[k]);
                        assert(out@[out0.len() + k] == before_out[out0.len() + k]);
                    }
                }
            }
        }
        i = i + 1;
    }
}

/// The items of a profile scrape, or the error when it found none.
pub fn profile_scrape_result(out: Vec<CollectedItem>) -> (r: Result<Vec<CollectedItem>, BackendError>)
    ensures
        out@.len() == 0 ==> (r matches Err(BackendError::Validation(m)) && m@
            == "xhs profile tab scrape returned no items: ensure account is logged in and profile tabs (点赞/收藏) are visible"@),
        out@.len() > 0 ==> (r matches Ok(v) && v@ == out@),
{
    if out.len() == 0 {
        Err(
            BackendError::Validation(
                crate::text::str_to_string(
                    "xhs profile tab scrape returned no items: ensure account is logged in and profile tabs (点赞/收藏) are visible",
                ),
            ),
        )
    } else {
        Ok(out)
    }
}

/// The trimmed id of the note a kept index points at.
pub open spec fn kept_id(notes: Seq<ProfileNote>, k: int) -> Seq<char> {
    trim(notes[k].id@)
}

/// A profile scrape keeps each note once: the kept notes have distinct
/// ids, none of them seen before the tab or one the walk was told to stop
/// at, and all of them among the ids seen after it, which extend those seen
/// before.
pub proof fn law_profile_tab_keeps_each_note_once(
    notes: Seq<ProfileNote>,
    stop_ids: Seq<Seq<char>>,
    seen: Seq<Seq<char>>,
    n: int,
)
    ensures
        ({
            let (kept, s) = profile_absorb_upto(notes, stop_ids, seen, n);
            &&& seen.len() <= s.len() && s.take(seen.len() as int) == seen
            &&& forall|i: int, j: int|
                #![trigger kept[i], kept[j]]
                0 <= i < j < kept.len() ==> kept_id(notes, kept[i]) != kept_id(notes, kept[j])
            &&& forall|i: int|
                0 <= i < kept.len() ==> s.contains(kept_id(notes, #[trigger] kept[i]))
                    && !seen.contains(kept_id(notes, kept[i])) && !stop_ids.contains(
                    kept_id(notes, kept[i]),
                )
        }),
    decreases n,
{
    if n <= 0 {
        assert(seen.take(seen.len() as int) =~= seen);
    } else {
        law_profile_tab_keeps_each_note_once(notes, stop_ids, seen, n - 1);
        let (kept, s) = profile_absorb_upto(notes, stop_ids, seen, n - 1);
        let id = trim(notes[n - 1].id@);
        if !(id.len() == 0 || stop_ids.contains(id) || s.contains(id)) {
            let k2 = kept.push(n - 1);
            let s2 = s.push(id);
            assert(s2.take(seen.len() as int) =~= s.take(seen.len() as int));
            assert(kept_id(notes, n - 1) == id);
            assert(!seen.contains(id)) by {
                if seen.contains(id) {
                    let w = choose|w: int| 0 <= w < seen.len() && seen[w] == id;
                    assert(s.take(seen.len() as int)[w] == id);
                    assert(s[w] == id);
                }
            }
            assert forall|i: int| 0 <= i < k2.len() implies s2.contains(kept_id(notes, #[trigger] k2[i]))
                && !seen.contains(kept_id(notes, k2[i])) && !stop_ids.contains(kept_id(notes, k2[i])) by {
                if i < kept.len() {
                    assert(k2[i] == kept[i]);
                    let x = kept_id(notes, kept[i]);
                    let w = choose|w: int| 0 <= w < s.len() && s[w] == x;
                    assert(s2[w] == x);
                } else {
                    assert(s2[s.len() as int] == id);
                }
            }
            assert forall|i: int, j: int|
                #![trigger k2[i], k2[j]]
                0 <= i < j < k2.len() implies kept_id(notes, k2[i]) != kept_id(notes, k2[j]) by {
                assert(k2[i] == kept[i]);
                if j < kept.len() {
                    assert(k2[j] == kept[j]);
                } else {
                    assert(s.contains(kept_id(notes, kept[i])));
                }
            }
        }
    }
}

} // verus!
