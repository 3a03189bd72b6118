//! Reading Xiaohongshu feed replies: notes are found anywhere in the reply
//! and turned into collected items with their text, links, time and
//! pictures.

use vstd::prelude::*;
use crate::collectors::items::CollectedItem;
use crate::collectors::xhs::{explore_url, merge_content, merged_content, opt_view};
use crate::json::{
    at_path, bool_of, field, get, get_path, json_bool, json_get, json_get_str, str_in, JsonValue,
};
use crate::num::{parse_i64, parse_signed};
use crate::text::{
    chars_of, concat, list_contains, lit, starts_with, starts_with_chars, string_of, string_views,
    strings_of, trim, trim_chars, views,
};

verus! {

/// The texts of a list of string slices.
pub open spec fn strs_view(v: Seq<&str>) -> Seq<Seq<char>> {
    v.map_values(|s: &str| s@)
}

// ── First values along paths ────────────────────────────────────────────────

/// The first usable text along `paths`: a non-blank string (trimmed) or a
/// number (as written).
pub open spec fn first_string_at(root: JsonValue, paths: Seq<Seq<char>>) -> Option<Seq<char>>
    decreases paths.len(),
{
    if paths.len() == 0 {
        None
    } else {
        match at_path(root, paths[0]) {
            Some(JsonValue::Str(s)) => if trim(s@).len() > 0 {
                Some(trim(s@))
            } else {
                first_string_at(root, paths.drop_first())
            },
            Some(JsonValue::Number { text, .. }) => Some(text@),
            _ => first_string_at(root, paths.drop_first()),
        }
    }
}

pub fn first_string(root: &JsonValue, paths: &Vec<&str>) -> (r: Option<String>)
    ensures
        opt_view(r) == first_string_at(*root, strs_view(paths@)),
{
    let ghost pv = strs_view(paths@);
    let mut i: usize = 0;
    proof {
        assert(pv.skip(0) =~= pv);
    }
    while i < paths.len()
        invariant
            i <= paths.len(),
            pv == strs_view(paths@),
            first_string_at(*root, pv) == first_string_at(*root, pv.skip(i as int)),
        decreases paths.len() - i,
    {
        proof {
            assert(pv.skip(i as int).drop_first() =~= pv.skip(i + 1));
            assert(pv.skip(i as int)[0] == paths@[i as int]@);
        }
        match get_path(root, paths[i]) {
            Some(JsonValue::Str(s)) => {
                let t = trim_chars(&chars_of(s.as_str()));
                if t.len() > 0 {
                    return Some(string_of(&t));
                }
            },
            Some(JsonValue::Number { text, .. }) => {
                return Some(crate::text::str_to_string(text.as_str()));
            },
            _ => {},
        }
        i = i + 1;
    }
    None
}

/// The first value along `paths` that reads as a boolean.
pub open spec fn first_bool_at(root: JsonValue, paths: Seq<Seq<char>>) -> Option<bool>
    decreases paths.len(),
{
    if paths.len() == 0 {
        None
    } else {
        match at_path(root, paths[0]) {
            Some(v) => match bool_of(v) {
                Some(b) => Some(b),
                None => first_bool_at(root, paths.drop_first()),
            },
            None => first_bool_at(root, paths.drop_first()),
        }
    }
}

pub fn first_bool(root: &JsonValue, paths: &Vec<&str>) -> (r: Option<bool>)
    ensures
        r == first_bool_at(*root, strs_view(paths@)),
{
    let ghost pv = strs_view(paths@);
    let mut i: usize = 0;
    proof {
        assert(pv.skip(0) =~= pv);
    }
    while i < paths.len()
        invariant
            i <= paths.len(),
            pv == strs_view(paths@),
            first_bool_at(*root, pv) == first_bool_at(*root, pv.skip(i as int)),
        decreases paths.len() - i,
    {
        proof {
            assert(pv.skip(i as int).drop_first() =~= pv.skip(i + 1));
            assert(pv.skip(i as int)[0] == paths@[i as int]@);
        }
        match get_path(root, paths[i]) {
            Some(v) => match json_bool(v) {
                Some(b) => {
                    return Some(b);
                },
                None => {},
            },
            None => {},
        }
        i = i + 1;
    }
    None
}

// ── Times ───────────────────────────────────────────────────────────────────

/// The UTC date and time `secs` seconds after the Unix epoch, written
/// `YYYY-MM-DD HH:MM:SS`, when chrono has that instant.
pub uninterp spec fn utc_text(secs: int) -> Option<Seq<char>>;

/// chrono's `Utc.timestamp_opt(secs, 0).single()`, formatted with
/// `%Y-%m-%d %H:%M:%S`. The contract claims only that the result is a
/// function of `secs` (named `utc_text`); what the text is, is chrono's.
#[verifier::external_body]
fn format_utc_seconds(secs: i64) -> (r: Option<String>)
    ensures
        opt_view(r) == utc_text(secs as int),
{
    match chrono::TimeZone::timestamp_opt(&chrono::Utc, secs, 0).single() {
        Some(dt) => Some(dt.format("%Y-%m-%d %H:%M:%S").to_string()),
        None => None,
    }
}

/// Epoch values above ten billion are taken as milliseconds.
pub open spec fn epoch_seconds(n: int) -> int {
    if n > 10_000_000_000 {
        n / 1000
    } else {
        n
    }
}

/// A note's time: an integer is read as epoch seconds (or milliseconds)
/// and written as a UTC date and time; any other non-blank text is kept,
/// trimmed.
pub open spec fn note_time(raw: Seq<char>) -> Option<Seq<char>> {
    let t = trim(raw);
    if t.len() == 0 {
        None
    } else {
        match parse_signed(t, i64::MIN as int, i64::MAX as int) {
            Some(n) => utc_text(epoch_seconds(n)),
            None => Some(t),
        }
    }
}

pub fn normalize_ts(raw: &str) -> (r: Option<String>)
    ensures
        opt_view(r) == note_time(raw@),
{
    let t = trim_chars(&chars_of(raw));
    if t.len() == 0 {
        return None;
    }
    let text = string_of(&t);
    match parse_i64(text.as_str()) {
        Some(n) => {
            let secs = if n > 10_000_000_000 {
                n / 1000
            } else {
                n
            };
            format_utc_seconds(secs)
        },
        None => Some(text),
    }
}

// ── Pictures ────────────────────────────────────────────────────────────────

/// A picture URL: an http or https link once trimmed.
pub open spec fn is_link(s: Seq<char>) -> bool {
    starts_with(trim(s), "http://"@) || starts_with(trim(s), "https://"@)
}

/// The members that name a picture's URL, in the order they are read.
pub open spec fn image_keys() -> Seq<Seq<char>> {
    seq![
        "url_default"@,
        "url"@,
        "url_pre"@,
        "image_url"@,
        "src"@,
        "origin"@,
        "master_url"@,
    ]
}

/// The links held directly under the picture members of an object.
pub open spec fn keyed_links(entries: Seq<(String, JsonValue)>, keys: Seq<Seq<char>>) -> Seq<
    Seq<char>,
>
    decreases keys.len(),
{
    if keys.len() == 0 {
        Seq::empty()
    } else {
        let head: Seq<Seq<char>> = match field(entries, keys[0]) {
            Some(JsonValue::Str(s)) => if is_link(s@) {
                seq![trim(s@)]
            } else {
                Seq::empty()
            },
            _ => Seq::empty(),
        };
        head + keyed_links(entries, keys.drop_first())
    }
}

/// Every picture link in a value, depth first: a link string itself; the
/// links of an array's items; an object's picture members, then the links
/// of all its members.
pub open spec fn links_in(v: JsonValue) -> Seq<Seq<char>>
    decreases v,
{
    match v {
        JsonValue::Str(s) => if is_link(s@) {
            seq![trim(s@)]
        } else {
            Seq::empty()
        },
        JsonValue::Array(items) => links_in_items(items@),
        JsonValue::Object(entries) => keyed_links(entries@, image_keys()) + links_in_entries(
            entries@,
        ),
        _ => Seq::empty(),
    }
}

pub open spec fn links_in_items(items: Seq<JsonValue>) -> Seq<Seq<char>>
    decreases items,
{
    if items.len() == 0 {
        Seq::empty()
    } else {
        links_in_items(items.drop_last()) + links_in(items.last())
    }
}

pub open spec fn links_in_entries(entries: Seq<(String, JsonValue)>) -> Seq<Seq<char>>
    decreases entries,
{
    if entries.len() == 0 {
        Seq::empty()
    } else {
        links_in_entries(entries.drop_last()) + links_in(entries.last().1)
    }
}

fn link_of(s: &String) -> (r: Option<Vec<char>>)
    ensures
        match r {
            Some(t) => is_link(s@) && t@ == trim(s@),
            None => !is_link(s@),
        },
{
    let t = trim_chars(&chars_of(s.as_str()));
    if starts_with_chars(&t, &lit("http://")) || starts_with_chars(&t, &lit("https://")) {
        Some(t)
    } else {
        None
    }
}

fn image_key_list() -> (r: Vec<&'static str>)
    ensures
        strs_view(r@) == image_keys(),
{
    let r = vec!["url_default", "url", "url_pre", "image_url", "src", "origin", "master_url"];
    proof {
        assert(strs_view(r@) =~= image_keys());
    }
    r
}

fn push_all(out: &mut Vec<Vec<char>>, more: Vec<Vec<char>>)
    ensures
        views(final(out)@) == views(old(out)@) + views(more@),
{
    let mut more = more;
    let ghost a = views(out@);
    let ghost b = views(more@);
    out.append(&mut more);
    proof {
        assert(views(out@) =~= a + b);
    }
}

fn keyed_links_exec(entries: &Vec<(String, JsonValue)>) -> (r: Vec<Vec<char>>)
    ensures
        views(r@) == keyed_links(entries@, image_keys()),
{
    let keys = image_key_list();
    let ghost kv = strs_view(keys@);
    let mut out: Vec<Vec<char>> = Vec::new();
    let mut i: usize = keys.len();
    proof {
        assert(kv.skip(keys.len() as int) =~= Seq::<Seq<char>>::empty());
    }
    while i > 0
        invariant
            i <= keys.len(),
            kv == strs_view(keys@),
            kv == image_keys(),
            views(out@) == keyed_links(entries@, kv.skip(i as int)),
        decreases i,
    {
        let k = i - 1;
        proof {
            assert(kv.skip(k as int).drop_first() =~= kv.skip(i as int));
            assert(kv.skip(k as int)[0] == keys@[k as int]@);
        }
        let head: Vec<Vec<char>> = match field_value(entries, keys[k]) {
            Some(JsonValue::Str(s)) => match link_of(s) {
                Some(t) => {
                    let mut h: Vec<Vec<char>> = Vec::new();
                    h.push(t);
                    h
                },
                None => Vec::new(),
            },
            _ => Vec::new(),
        };
        let mut next = head;
        let ghost hv = views(next@);
        push_all(&mut next, out);
        out = next;
        proof {
            assert(hv =~= match field(entries@, kv.skip(k as int)[0]) {
                Some(JsonValue::Str(s)) => if is_link(s@) {
                    seq![trim(s@)]
                } else {
                    Seq::<Seq<char>>::empty()
                },
                _ => Seq::<Seq<char>>::empty(),
            });
        }
        i = k;
    }
    proof {
        assert(kv.skip(0) =~= kv);
    }
    out
}

fn field_value<'a>(entries: &'a Vec<(String, JsonValue)>, key: &str) -> (r: Option<&'a JsonValue>)
    ensures
        match r {
            Some(x) => field(entries@, key@) == Some(*x),
            None => field(entries@, key@) is None,
        },
{
    let k = chars_of(key);
    let mut i: usize = 0;
    proof {
        assert(entries@.skip(0) =~= entries@);
    }
    while i < entries.len()
        invariant
            i <= entries.len(),
            k@ == key@,
            field(entries@, key@) == field(entries@.skip(i as int), key@),
        decreases entries.len() - i,
    {
        proof {
            assert(entries@.skip(i as int).drop_first() =~= entries@.skip(i + 1));
            assert(entries@.skip(i as int)[0] == entries@[i as int]);
        }
        if crate::text::chars_eq(&chars_of(entries[i].0.as_str()), &k) {
            return Some(&entries[i].1);
        }
        i = i + 1;
    }
    None
}

/// Appends every picture link in `v` (see `links_in`).
pub fn collect_image_urls(v: &JsonValue, out: &mut Vec<Vec<char>>)
    ensures
        views(final(out)@) == views(old(out)@) + links_in(*v),
    decreases v,
{
    match v {
        JsonValue::Str(s) => {
            let ghost before = views(out@);
            match link_of(s) {
                Some(t) => {
                    out.push(t);
                    proof {
                        assert(views(out@) =~= before + seq![trim(s@)]);
                    }
                },
                None => {
                    proof {
                        assert(views(out@) =~= before + Seq::<Seq<char>>::empty());
                    }
                },
            }
        },
        JsonValue::Array(items) => {
            let ghost before = views(out@);
            let mut i: usize = 0;
            while i < items.len()
                invariant
                    i <= items.len(),
                    *v == JsonValue::Array(*items),
                    views(out@) == before + links_in_items(items@.take(i as int)),
                decreases items.len() - i,
            {
                proof {
                    assert(items@.take(i + 1).drop_last() =~= items@.take(i as int));
                    assert(items@.take(i + 1).last() == items@[i as int]);
                    assert((*v)->Array_0 == *items);
                    assert(decreases_to!(*v => (*v)->Array_0));
                    assert(decreases_to!(*items => items@));
                    assert(decreases_to!(items@ => items@[i as int]));
                }
                let ghost mid = views(out@);
                collect_image_urls(&items[i], out);
                proof {
                    assert(views(out@) =~= before + links_in_items(items@.take(i + 1)));
                }
                i = i + 1;
            }
            proof {
                assert(items@.take(items.len() as int) =~= items@);
            }
        },
        JsonValue::Object(entries) => {
            let ghost before = views(out@);
            push_all(out, keyed_links_exec(entries));
            let ghost start = views(out@);
            let mut i: usize = 0;
            while i < entries.len()
                invariant
                    i <= entries.len(),
                    *v == JsonValue::Object(*entries),
                    views(out@) == start + links_in_entries(entries@.take(i as int)),
                decreases entries.len() - i,
            {
                proof {
                    assert(entries@.take(i + 1).drop_last() =~= entries@.take(i as int));
                    assert(entries@.take(i + 1).last() == entries@[i as int]);
                    assert((*v)->Object_0 == *entries);
                    assert(decreases_to!(*v => (*v)->Object_0));
                    assert(decreases_to!(*entries => entries@));
                    assert(decreases_to!(entries@ => entries@[i as int]));
                    assert(decreases_to!(entries@[i as int] => entries@[i as int].1));
                }
                collect_image_urls(&entries[i].1, out);
                proof {
                    assert(views(out@) =~= start + links_in_entries(entries@.take(i + 1)));
                }
                i = i + 1;
            }
            proof {
                assert(entries@.take(entries.len() as int) =~= entries@);
            }
        },
        _ => {
            proof {
                assert(views(out@) =~= views(old(out)@) + Seq::<Seq<char>>::empty());
            }
        },
    }
}

/// The paths of a note's picture lists.
pub open spec fn image_list_paths() -> Seq<Seq<char>> {
    seq![
        "image_list"@,
        "images_list"@,
        "images"@,
        "note_card.image_list"@,
        "note_card.images_list"@,
        "note_card.images"@,
        "image_info_list"@,
        "note_card.image_info_list"@,
        "note_card.image_info.image_list"@,
        "note_card.note_card.image_list"@,
    ]
}

/// The links in the values at `paths`, path by path.
pub open spec fn listed_links(root: JsonValue, paths: Seq<Seq<char>>) -> Seq<Seq<char>>
    decreases paths.len(),
{
    if paths.len() == 0 {
        Seq::empty()
    } else {
        (match at_path(root, paths[0]) {
            Some(v) => links_in(v),
            None => Seq::empty(),
        }) + listed_links(root, paths.drop_first())
    }
}

/// Each entry once, at its first place.
pub open spec fn distinct_in_order(s: Seq<Seq<char>>) -> Seq<Seq<char>>
    decreases s.len(),
{
    if s.len() == 0 {
        Seq::empty()
    } else {
        let p = distinct_in_order(s.drop_last());
        if p.contains(s.last()) {
            p
        } else {
            p.push(s.last())
        }
    }
}

/// A note's pictures are listed once each: the list has no repeats and
/// holds exactly the links it was made from.
pub proof fn law_images_once_each(s: Seq<Seq<char>>)
    ensures
        distinct_in_order(s).no_duplicates(),
        forall|x: Seq<char>| distinct_in_order(s).contains(x) <==> s.contains(x),
    decreases s.len(),
{
    if s.len() > 0 {
        law_images_once_each(s.drop_last());
        let q = s.drop_last();
        let p = distinct_in_order(q);
        assert forall|x: Seq<char>| s.contains(x) <==> (q.contains(x) || x == s.last()) by {
            if s.contains(x) {
                let i = choose|i: int| 0 <= i < s.len() && s[i] == x;
                if i < s.len() - 1 {
                    assert(q[i] == x);
                }
            }
            if q.contains(x) {
                let i = choose|i: int| 0 <= i < q.len() && q[i] == x;
                assert(s[i] == x);
            }
            if x == s.last() {
                assert(s[s.len() - 1] == x);
            }
        }
        if !p.contains(s.last()) {
            let d = p.push(s.last());
            assert forall|x: Seq<char>| d.contains(x) <==> (p.contains(x) || x == s.last()) by {
                if d.contains(x) {
                    let i = choose|i: int| 0 <= i < d.len() && d[i] == x;
                    if i < p.len() {
                        assert(p[i] == x);
                    }
                }
                if p.contains(x) {
                    let i = choose|i: int| 0 <= i < p.len() && p[i] == x;
                    assert(d[i] == x);
                }
                if x == s.last() {
                    assert(d[d.len() - 1] == x);
                }
            }
            assert forall|i: int, j: int| 0 <= i < d.len() && 0 <= j < d.len() && i != j implies d[i]
                != d[j] by {
                if i == d.len() - 1 {
                    assert(p.contains(d[j]));
                } else if j == d.len() - 1 {
                    assert(p.contains(d[i]));
                }
            }
        }
    }
}

/// A note's pictures: the links in its picture lists, or, when there are
/// none, every link in the note; each once.
pub open spec fn note_images(root: JsonValue) -> Seq<Seq<char>> {
    let listed = listed_links(root, image_list_paths());
    distinct_in_order(
        if listed.len() == 0 {
            links_in(root)
        } else {
            listed
        },
    )
}

fn image_list_path_list() -> (r: Vec<&'static str>)
    ensures
        strs_view(r@) == image_list_paths(),
{
    let r = vec![
        "image_list",
        "images_list",
        "images",
        "note_card.image_list",
        "note_card.images_list",
        "note_card.images",
        "image_info_list",
        "note_card.image_info_list",
        "note_card.image_info.image_list",
        "note_card.note_card.image_list",
    ];
    proof {
        assert(strs_view(r@) =~= image_list_paths());
    }
    r
}

pub fn extract_image_urls(root: &JsonValue) -> (r: Vec<String>)
    ensures
        string_views(r@) == note_images(*root),
{
    let paths = image_list_path_list();
    let ghost pv = strs_view(paths@);
    let mut urls: Vec<Vec<char>> = Vec::new();
    let mut i: usize = 0;
    proof {
        assert(pv.skip(0) =~= pv);
        assert(views(urls@) =~= Seq::<Seq<char>>::empty());
        assert(listed_links(*root, pv) =~= views(urls@) + listed_links(*root, pv.skip(0)));
    }
    while i < paths.len()
        invariant
            i <= paths.len(),
            pv == strs_view(paths@),
            pv == image_list_paths(),
            listed_links(*root, pv) == views(urls@) + listed_links(*root, pv.skip(i as int)),
        decreases paths.len() - i,
    {
        proof {
            assert(pv.skip(i as int).drop_first() =~= pv.skip(i + 1));
            assert(pv.skip(i as int)[0] == paths@[i as int]@);
        }
        let ghost before = views(urls@);
        match get_path(root, paths[i]) {
            Some(v) => {
                collect_image_urls(v, &mut urls);
            },
            None => {},
        }
        proof {
            assert(views(urls@) + listed_links(*root, pv.skip(i + 1)) =~= before + listed_links(
                *root,
                pv.skip(i as int),
            ));
        }
        i = i + 1;
    }
    proof {
        assert(pv.skip(paths.len() as int) =~= Seq::<Seq<char>>::empty());
        assert(views(urls@) =~= views(urls@) + Seq::<Seq<char>>::empty());
    }
    if urls.len() == 0 {
        collect_image_urls(root, &mut urls);
        proof {
            assert(views(urls@) =~= Seq::<Seq<char>>::empty() + links_in(*root));
        }
    }
    let ghost all = views(urls@);
    let mut out: Vec<Vec<char>> = Vec::new();
    let mut k: usize = 0;
    while k < urls.len()
        invariant
            k <= urls.len(),
            all == views(urls@),
            views(out@) == distinct_in_order(all.take(k as int)),
        decreases urls.len() - k,
    {
        proof {
            assert(all.take(k + 1).drop_last() =~= all.take(k as int));
            assert(all.take(k + 1).last() == urls@[k as int]@);
        }
        if !list_contains(&out, &urls[k]) {
            let ghost before = views(out@);
            out.push(crate::text::copy_chars(&urls[k]));
            proof {
                assert(views(out@) =~= before.push(urls@[k as int]@));
            }
        }
        k = k + 1;
    }
    proof {
        assert(all.take(urls.len() as int) =~= all);
    }
    strings_of(&out)
}

// ── Notes ───────────────────────────────────────────────────────────────────

/// An object that looks like a note: it has a string id (`note_id` or
/// `id`) and one of the members a note carries.
pub open spec fn note_like(v: JsonValue) -> bool {
    &&& (str_in(get(v, "note_id"@)) is Some || str_in(get(v, "id"@)) is Some)
    &&& (get(v, "xsec_token"@) is Some || get(v, "note_card"@) is Some || get(v, "desc"@) is Some
        || get(v, "title"@) is Some || get(v, "display_title"@) is Some)
}

/// The notes in a value, depth first, each object before its members.
pub open spec fn notes_in(v: JsonValue) -> Seq<JsonValue>
    decreases v,
{
    match v {
        JsonValue::Object(entries) => (if note_like(v) {
            seq![v]
        } else {
            Seq::empty()
        }) + notes_in_entries(entries@),
        JsonValue::Array(items) => notes_in_items(items@),
        _ => Seq::empty(),
    }
}

pub open spec fn notes_in_items(items: Seq<JsonValue>) -> Seq<JsonValue>
    decreases items,
{
    if items.len() == 0 {
        Seq::empty()
    } else {
        notes_in_items(items.drop_last()) + notes_in(items.last())
    }
}

pub open spec fn notes_in_entries(entries: Seq<(String, JsonValue)>) -> Seq<JsonValue>
    decreases entries,
{
    if entries.len() == 0 {
        Seq::empty()
    } else {
        notes_in_entries(entries.drop_last()) + notes_in(entries.last().1)
    }
}

/// A collected item as plain values.
pub struct ItemView {
    pub external_id: Seq<char>,
    pub source_url: Seq<char>,
    pub title: Option<Seq<char>>,
    pub content_raw: Seq<char>,
    pub published_at: Option<Seq<char>>,
    pub cover_url: Option<Seq<char>>,
    pub image_urls: Seq<Seq<char>>,
}

pub open spec fn item_view(item: CollectedItem) -> ItemView {
    ItemView {
        external_id: item.external_id@,
        source_url: item.source_url@,
        title: opt_view(item.title),
        content_raw: item.content_raw@,
        published_at: opt_view(item.published_at),
        cover_url: opt_view(item.cover_url),
        image_urls: string_views(item.image_urls@),
    }
}

pub open spec fn id_paths() -> Seq<Seq<char>> {
    seq!["note_id"@, "id"@]
}

pub open spec fn title_paths() -> Seq<Seq<char>> {
    seq!["title"@, "display_title"@, "note_card.title"@, "note_card.display_title"@]
}

pub open spec fn desc_paths() -> Seq<Seq<char>> {
    seq!["desc"@, "content"@, "note_card.desc"@, "note_card.content"@, "video_info.title"@]
}

pub open spec fn token_paths() -> Seq<Seq<char>> {
    seq!["xsec_token"@, "note_card.xsec_token"@]
}

pub open spec fn url_paths() -> Seq<Seq<char>> {
    seq!["source_url"@, "note_url"@, "url"@, "share_url"@]
}

pub open spec fn time_paths() -> Seq<Seq<char>> {
    seq!["published_at"@, "publish_time"@, "time"@, "create_time"@, "update_time"@]
}

pub open spec fn cover_paths() -> Seq<Seq<char>> {
    seq![
        "cover.url_default"@,
        "cover.url"@,
        "note_card.cover.url_default"@,
        "note_card.cover.url"@,
        "image_info.url_default"@,
        "image_info.url"@,
        "video_info.image.url_default"@,
        "video_info.image.url"@,
        "note_card.video_info.image.url_default"@,
        "note_card.video_info.image.url"@,
    ]
}

/// The link of a note: its own, else its explore page (with its access
/// token when it has one).
pub open spec fn note_url(v: JsonValue, id: Seq<char>) -> Seq<char> {
    match first_string_at(v, url_paths()) {
        Some(u) => u,
        None => match first_string_at(v, token_paths()) {
            Some(t) => explore_url(id) + "?xsec_token="@ + t,
            None => explore_url(id),
        },
    }
}

/// A note's cover (its own, else its first picture) and its pictures, the
/// cover first, at most eight.
pub open spec fn cover_and_images(v: JsonValue) -> (Option<Seq<char>>, Seq<Seq<char>>) {
    let images = note_images(v);
    let cover = match first_string_at(v, cover_paths()) {
        Some(c) => Some(c),
        None => if images.len() > 0 {
            Some(images[0])
        } else {
            None
        },
    };
    let all = match cover {
        Some(c) => if images.contains(c) {
            images
        } else {
            seq![c] + images
        },
        None => images,
    };
    (cover, crate::pipeline::analyze::take_seq(all, 8))
}

/// The item a note gives: it needs a non-blank id and a title or a
/// description.
pub open spec fn item_of(v: JsonValue) -> Option<ItemView> {
    match first_string_at(v, id_paths()) {
        None => None,
        Some(id) => if trim(id).len() == 0 {
            None
        } else {
            let title = first_string_at(v, title_paths());
            match merged_content(title, first_string_at(v, desc_paths())) {
                None => None,
                Some(content) => {
                    let (cover, images) = cover_and_images(v);
                    Some(
                        ItemView {
                            external_id: id,
                            source_url: note_url(v, id),
                            title,
                            content_raw: content,
                            published_at: match first_string_at(v, time_paths()) {
                                Some(t) => note_time(t),
                                None => None,
                            },
                            cover_url: cover,
                            image_urls: images,
                        },
                    )
                },
            }
        },
    }
}

fn paths_of(which: u8) -> (r: Vec<&'static str>)
    ensures
        which == 0 ==> strs_view(r@) == id_paths(),
        which == 1 ==> strs_view(r@) == title_paths(),
        which == 2 ==> strs_view(r@) == desc_paths(),
        which == 3 ==> strs_view(r@) == token_paths(),
        which == 4 ==> strs_view(r@) == url_paths(),
        which == 5 ==> strs_view(r@) == time_paths(),
        which >= 6 ==> strs_view(r@) == cover_paths(),
{
    let r = if which == 0 {
        vec!["note_id", "id"]
    } else if which == 1 {
        vec!["title", "display_title", "note_card.title", "note_card.display_title"]
    } else if which == 2 {
        vec!["desc", "content", "note_card.desc", "note_card.content", "video_info.title"]
    } else if which == 3 {
        vec!["xsec_token", "note_card.xsec_token"]
    } else if which == 4 {
        vec!["source_url", "note_url", "url", "share_url"]
    } else if which == 5 {
        vec!["published_at", "publish_time", "time", "create_time", "update_time"]
    } else {
        vec![
            "cover.url_default",
            "cover.url",
            "note_card.cover.url_default",
            "note_card.cover.url",
            "image_info.url_default",
            "image_info.url",
            "video_info.image.url_default",
            "video_info.image.url",
            "note_card.video_info.image.url_default",
            "note_card.video_info.image.url",
        ]
    };
    proof {
        if which == 0 {
            assert(strs_view(r@) =~= id_paths());
        } else if which == 1 {
            assert(strs_view(r@) =~= title_paths());
        } else if which == 2 {
            assert(strs_view(r@) =~= desc_paths());
        } else if which == 3 {
            assert(strs_view(r@) =~= token_paths());
        } else if which == 4 {
            assert(strs_view(r@) =~= url_paths());
        } else if which == 5 {
            assert(strs_view(r@) =~= time_paths());
        } else {
            assert(strs_view(r@) =~= cover_paths());
        }
    }
    r
}

fn cover_and_images_exec(v: &JsonValue) -> (r: (Option<String>, Vec<String>))
    ensures
        (opt_view(r.0), string_views(r.1@)) == cover_and_images(*v),
{
    let images = chars_list_of(&extract_image_urls(v));
    let cover: Option<Vec<char>> = match first_string(v, &paths_of(6)) {
        Some(c) => Some(chars_of(c.as_str())),
        None => if images.len() > 0 {
            Some(crate::text::copy_chars(&images[0]))
        } else {
            None
        },
    };
    let mut all: Vec<Vec<char>> = Vec::new();
    match &cover {
        Some(c) => {
            if !list_contains(&images, c) {
                all.push(crate::text::copy_chars(c));
            }
        },
        None => {},
    }
    let ghost head = views(all@);
    let mut rest = images;
    let ghost iv = views(rest@);
    all.append(&mut rest);
    proof {
        assert(views(all@) =~= head + iv);
    }
    if all.len() > 8 {
        all.truncate(8);
    }
    proof {
        assert(views(all@) =~= crate::pipeline::analyze::take_seq(head + iv, 8));
    }
    let cover_out = match cover {
        Some(c) => Some(string_of(&c)),
        None => None,
    };
    (cover_out, strings_of(&all))
}

fn chars_list_of(v: &Vec<String>) -> (r: Vec<Vec<char>>)
    ensures
        views(r@) == string_views(v@),
{
    crate::text::chars_list(v)
}

/// The item a note gives, if any (see `item_of`).
pub fn to_collected_item(v: &JsonValue) -> (r: Option<CollectedItem>)
    ensures
        match r {
            Some(item) => item_of(*v) == Some(item_view(item)),
            None => item_of(*v) is None,
        },
{
    let external_id = match first_string(v, &paths_of(0)) {
        Some(id) => id,
        None => {
            return None;
        },
    };
    if trim_chars(&chars_of(external_id.as_str())).len() == 0 {
        return None;
    }
    let title = first_string(v, &paths_of(1));
    let desc = first_string(v, &paths_of(2));
    let title_ref: Option<&str> = match &title {
        Some(t) => Some(t.as_str()),
        None => None,
    };
    let desc_ref: Option<&str> = match &desc {
        Some(d) => Some(d.as_str()),
        None => None,
    };
    let content_raw = match merge_content(title_ref, desc_ref) {
        Some(c) => c,
        None => {
            return None;
        },
    };
    let token = first_string(v, &paths_of(3));
    let source_url = match first_string(v, &paths_of(4)) {
        Some(u) => u,
        None => {
            let base = concat(&lit("https://www.xiaohongshu.com/explore/"), &chars_of(external_id.as_str()));
            match token {
                Some(t) => string_of(&concat(&concat(&base, &lit("?xsec_token=")), &chars_of(t.as_str()))),
                None => string_of(&base),
            }
        },
    };
    let published_at = match first_string(v, &paths_of(5)) {
        Some(t) => normalize_ts(t.as_str()),
        None => None,
    };
    let (cover_url, image_urls) = cover_and_images_exec(v);
    Some(
        CollectedItem {
            external_id,
            source_url,
            title,
            content_raw,
            published_at,
            cover_url,
            image_urls,
        },
    )
}

// ── Pages ───────────────────────────────────────────────────────────────────

/// The items the notes give, in order, notes that give none left out.
pub open spec fn items_of(notes: Seq<JsonValue>) -> Seq<ItemView>
    decreases notes.len(),
{
    if notes.len() == 0 {
        Seq::empty()
    } else {
        let prev = items_of(notes.drop_last());
        match item_of(notes.last()) {
            Some(i) => prev.push(i),
            None => prev,
        }
    }
}

proof fn lemma_items_of_append(a: Seq<JsonValue>, b: Seq<JsonValue>)
    ensures
        items_of(a + b) == items_of(a) + items_of(b),
    decreases b.len(),
{
    if b.len() == 0 {
        assert(a + b =~= a);
        assert(items_of(b) =~= Seq::<ItemView>::empty());
        assert(items_of(a) + items_of(b) =~= items_of(a));
    } else {
        lemma_items_of_append(a, b.drop_last());
        assert((a + b).drop_last() =~= a + b.drop_last());
        assert((a + b).last() == b.last());
        match item_of(b.last()) {
            Some(i) => {
                assert(items_of(a) + items_of(b) =~= (items_of(a) + items_of(b.drop_last())).push(i));
            },
            None => {},
        }
    }
}

pub open spec fn items_view(items: Seq<CollectedItem>) -> Seq<ItemView> {
    items.map_values(|i: CollectedItem| item_view(i))
}

/// Appends the items of the notes in `v`, and records whether there was a
/// note at all.
fn collect_note_candidates(v: &JsonValue, out: &mut Vec<CollectedItem>, found: &mut bool)
    ensures
        items_view(final(out)@) == items_view(old(out)@) + items_of(notes_in(*v)),
        *final(found) == (*old(found) || notes_in(*v).len() > 0),
    decreases v,
{
    match v {
        JsonValue::Object(entries) => {
            let ghost start = items_view(out@);
            if looks_like_note(v) {
                *found = true;
                let ghost before = out@;
                let got = to_collected_item(v);
                match got {
                    Some(item) => {
                        out.push(item);
                        proof {
                            assert(items_view(out@) =~= items_view(before).push(item_view(item)));
                        }
                    },
                    None => {},
                }
                proof {
                    let one = seq![*v];
                    assert(one.drop_last() =~= Seq::<JsonValue>::empty());
                    assert(one.last() == *v);
                    assert(items_of(Seq::<JsonValue>::empty()) =~= Seq::<ItemView>::empty());
                    match item_of(*v) {
                        Some(iv) => {
                            assert(items_of(one) =~= seq![iv]);
                            assert(items_view(out@) =~= start + items_of(one));
                        },
                        None => {
                            assert(items_of(one) =~= Seq::<ItemView>::empty());
                            assert(items_view(out@) =~= start + items_of(one));
                        },
                    }
                }
            }
            let ghost head: Seq<JsonValue> = if note_like(*v) {
                seq![*v]
            } else {
                Seq::empty()
            };
            proof {
                if !note_like(*v) {
                    assert(items_of(head) =~= Seq::<ItemView>::empty());
                    assert(items_view(out@) =~= start + items_of(head));
                }
            }
            let ghost mid = items_view(out@);
            let mut i: usize = 0;
            while i < entries.len()
                invariant
                    i <= entries.len(),
                    *v == JsonValue::Object(*entries),
                    items_view(out@) == mid + items_of(notes_in_entries(entries@.take(i as int))),
                    *found == (*old(found) || head.len() > 0 || notes_in_entries(
                        entries@.take(i as int),
                    ).len() > 0),
                    head.len() > 0 <==> note_like(*v),
                decreases entries.len() - i,
            {
                proof {
                    assert(entries@.take(i + 1).drop_last() =~= entries@.take(i as int));
                    assert(entries@.take(i + 1).last() == entries@[i as int]);
                    assert((*v)->Object_0 == *entries);
                    assert(decreases_to!(*v => (*v)->Object_0));
                    assert(decreases_to!(*entries => entries@));
                    assert(decreases_to!(entries@ => entries@[i as int]));
                    assert(decreases_to!(entries@[i as int] => entries@[i as int].1));
                    lemma_items_of_append(
                        notes_in_entries(entries@.take(i as int)),
                        notes_in(entries@[i as int].1),
                    );
                }
                collect_note_candidates(&entries[i].1, out, found);
                i = i + 1;
            }
            proof {
                assert(entries@.take(entries.len() as int) =~= entries@);
                lemma_items_of_append(head, notes_in_entries(entries@));
            }
        },
        JsonValue::Array(items) => {
            let ghost start = items_view(out@);
            let mut i: usize = 0;
            proof {
                assert(items_of(notes_in_items(items@.take(0))) =~= Seq::<ItemView>::empty());
                assert(items_view(out@) =~= start + Seq::<ItemView>::empty());
            }
            while i < items.len()
                invariant
                    i <= items.len(),
                    *v == JsonValue::Array(*items),
                    items_view(out@) == start + items_of(notes_in_items(items@.take(i as int))),
                    *found == (*old(found) || notes_in_items(items@.take(i as int)).len() > 0),
                decreases items.len() - i,
            {
                proof {
                    assert(items@.take(i + 1).drop_last() =~= items@.take(i as int));
                    assert(items@.take(i + 1).last() == items@[i as int]);
                    assert((*v)->Array_0 == *items);
                    assert(decreases_to!(*v => (*v)->Array_0));
                    assert(decreases_to!(*items => items@));
                    assert(decreases_to!(items@ => items@[i as int]));
                    lemma_items_of_append(
                        notes_in_items(items@.take(i as int)),
                        notes_in(items@[i as int]),
                    );
                }
                collect_note_candidates(&items[i], out, found);
                i = i + 1;
            }
            proof {
                assert(items@.take(items.len() as int) =~= items@);
            }
        },
        _ => {
            proof {
                assert(items_of(notes_in(*v)) =~= Seq::<ItemView>::empty());
                assert(items_view(out@) =~= items_view(old(out)@) + Seq::<ItemView>::empty());
            }
        },
    }
}

fn looks_like_note(v: &JsonValue) -> (r: bool)
    ensures
        r == note_like(*v),
{
    let has_id = json_get_str(v, "note_id").is_some() || json_get_str(v, "id").is_some();
    has_id && (json_get(v, "xsec_token").is_some() || json_get(v, "note_card").is_some()
        || json_get(v, "desc").is_some() || json_get(v, "title").is_some() || json_get(
        v,
        "display_title",
    ).is_some())
}

/// What one reply page gives: its items, whether there are more, and the
/// cursor of the next page.
pub struct PageExtract {
    pub items: Vec<CollectedItem>,
    pub has_more: Option<bool>,
    pub next_cursor: Option<String>,
}

/// The part of a reply that holds the notes: its `data`, or the reply.
pub open spec fn reply_data(payload: JsonValue) -> JsonValue {
    match get(payload, "data"@) {
        Some(d) => d,
        None => payload,
    }
}

/// The notes of a reply: those in its data, or, when the data holds none,
/// those anywhere in the reply.
pub open spec fn reply_notes(payload: JsonValue) -> Seq<JsonValue> {
    let in_data = notes_in(reply_data(payload));
    if in_data.len() == 0 && get(payload, "data"@) is Some {
        notes_in(payload)
    } else {
        in_data
    }
}

/// Reads one reply page: the items of its notes, `has_more` (or `more`)
/// and the non-blank `next_cursor` (or `cursor`) of its data.
pub fn extract_page(payload: &JsonValue) -> (r: PageExtract)
    ensures
        items_view(r.items@) == items_of(reply_notes(*payload)),
        r.has_more == first_bool_at(reply_data(*payload), seq!["has_more"@, "more"@]),
        opt_view(r.next_cursor) == match first_string_at(
            reply_data(*payload),
            seq!["next_cursor"@, "cursor"@],
        ) {
            Some(c) => if trim(c).len() == 0 {
                None
            } else {
                Some(c)
            },
            None => None,
        },
{
    let has_data = json_get(payload, "data").is_some();
    let data: &JsonValue = match json_get(payload, "data") {
        Some(d) => d,
        None => payload,
    };
    let mut items: Vec<CollectedItem> = Vec::new();
    let mut found = false;
    collect_note_candidates(data, &mut items, &mut found);
    proof {
        assert(items_view(items@) =~= Seq::<ItemView>::empty() + items_of(notes_in(*data)));
    }
    if !found && has_data {
        let mut again: Vec<CollectedItem> = Vec::new();
        let mut f2 = false;
        collect_note_candidates(payload, &mut again, &mut f2);
        proof {
            assert(items_view(again@) =~= Seq::<ItemView>::empty() + items_of(notes_in(*payload)));
        }
        items = again;
    }
    let more_paths = vec!["has_more", "more"];
    let cursor_paths = vec!["next_cursor", "cursor"];
    proof {
        assert(strs_view(more_paths@) =~= seq!["has_more"@, "more"@]);
        assert(strs_view(cursor_paths@) =~= seq!["next_cursor"@, "cursor"@]);
    }
    let has_more = first_bool(data, &more_paths);
    let next_cursor = match first_string(data, &cursor_paths) {
        Some(c) => if trim_chars(&chars_of(c.as_str())).len() == 0 {
            None
        } else {
            Some(c)
        },
        None => None,
    };
    PageExtract { items, has_more, next_cursor }
}

/// A reply's `code` written as `{}` writes an `i64`.
pub open spec fn int_text(n: int) -> Seq<char> {
    if n < 0 {
        seq!['-'] + crate::num::dec_string((-n) as nat)
    } else {
        crate::num::dec_string(n as nat)
    }
}

fn int_text_exec(n: i64) -> (r: Vec<char>)
    ensures
        r@ == int_text(n as int),
{
    if n < 0 {
        let mut m: Vec<char> = Vec::new();
        m.push('-');
        proof {
            assert(m@ =~= seq!['-']);
        }
        let abs: u64 = (-(n as i128)) as u64;
        concat(&m, &crate::num::dec_chars(abs))
    } else {
        crate::num::dec_chars(n as u64)
    }
}

/// A reply is refused when its `code` (0 when absent or not an integer) is
/// not 0 or its `success` (true when absent or not a boolean) is false.
pub fn ensure_payload_ok(payload: &JsonValue) -> (r: Result<(), crate::error::BackendError>)
    ensures
        ({
            let code: int = match get(*payload, "code"@) {
                Some(c) => match crate::json::int_of(c) {
                    Some(n) => n as int,
                    None => 0,
                },
                None => 0,
            };
            let success = match get(*payload, "success"@) {
                Some(JsonValue::Bool(b)) => b,
                _ => true,
            };
            &&& (code == 0 && success) ==> r is Ok
            &&& !(code == 0 && success) ==> (r matches Err(crate::error::BackendError::Validation(m))
                && m@ == "xhs request rejected: code="@ + int_text(code) + ", success="@ + if success {
                "true"@
            } else {
                "false"@
            })
        }),
{
    let code: i64 = match json_get(payload, "code") {
        Some(c) => match crate::json::json_int(c) {
            Some(n) => n,
            None => 0,
        },
        None => 0,
    };
    let success = match json_get(payload, "success") {
        Some(JsonValue::Bool(b)) => *b,
        _ => true,
    };
    if code != 0 || !success {
        let m = concat(
            &concat(&concat(&lit("xhs request rejected: code="), &int_text_exec(code)), &lit(", success=")),
            &lit(
                if success {
                    "true"
                } else {
                    "false"
                },
            ),
        );
        return Err(crate::error::BackendError::Validation(string_of(&m)));
    }
    Ok(())
}

} // verus!
