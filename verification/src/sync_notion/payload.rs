//! Reading the classification stored with an analysed item, for the sync
//! and for the publish history.

use vstd::prelude::*;
pub use crate::config::opt_view;
use crate::json::{get, str_in, JsonValue};
use crate::pipeline::analyze::take_seq;
use crate::text::{
    chars_of, keep_trimmed, kept_trimmed, push_lit, string_of, string_views, strings_of, trim,
    trim_chars, views,
};

verus! {

/// The non-blank strings among the items, trimmed, in order.
pub open spec fn strings_in(items: Seq<JsonValue>) -> Seq<Seq<char>>
    decreases items.len(),
{
    if items.len() == 0 {
        Seq::empty()
    } else {
        let prev = strings_in(items.drop_last());
        match items.last() {
            JsonValue::Str(s) => if trim(s@).len() > 0 {
                prev.push(trim(s@))
            } else {
                prev
            },
            _ => prev,
        }
    }
}

/// The strings of a list value; nothing when it is not a list.
pub open spec fn string_list_of(v: Option<JsonValue>) -> Seq<Seq<char>> {
    match v {
        Some(JsonValue::Array(items)) => strings_in(items@),
        _ => Seq::empty(),
    }
}

fn strings_in_exec(items: &Vec<JsonValue>) -> (r: Vec<Vec<char>>)
    ensures
        views(r@) == strings_in(items@),
{
    let mut out: Vec<Vec<char>> = Vec::new();
    let mut i: usize = 0;
    while i < items.len()
        invariant
            i <= items.len(),
            views(out@) == strings_in(items@.take(i as int)),
        decreases items.len() - i,
    {
        proof {
            assert(items@.take(i + 1).drop_last() =~= items@.take(i as int));
            assert(items@.take(i + 1).last() == items@[i as int]);
        }
        match &items[i] {
            JsonValue::Str(s) => {
                let t = trim_chars(&chars_of(s.as_str()));
                if t.len() > 0 {
                    let ghost before = views(out@);
                    out.push(t);
                    proof {
                        assert(views(out@) =~= before.push(t@));
                    }
                }
            },
            _ => {},
        }
        i = i + 1;
    }
    proof {
        assert(items@.take(items.len() as int) =~= items@);
    }
    out
}

/// The non-blank strings of a list value, trimmed.
pub fn extract_string_list(value: Option<&JsonValue>) -> (r: Vec<String>)
    ensures
        string_views(r@) == string_list_of(
            match value {
                Some(v) => Some(*v),
                None => None,
            },
        ),
{
    match value {
        Some(JsonValue::Array(items)) => strings_of(&strings_in_exec(items)),
        _ => Vec::new(),
    }
}

fn member_list(v: &JsonValue, key: &str) -> (r: Vec<Vec<char>>)
    ensures
        views(r@) == string_list_of(get(*v, key@)),
{
    match crate::json::json_get(v, key) {
        Some(JsonValue::Array(items)) => strings_in_exec(items),
        _ => Vec::new(),
    }
}

/// A member's text, trimmed, when it is a non-blank string.
pub open spec fn member_text(v: JsonValue, key: Seq<char>) -> Option<Seq<char>> {
    match str_in(get(v, key)) {
        Some(t) => if trim(t).len() > 0 {
            Some(trim(t))
        } else {
            None
        },
        None => None,
    }
}

fn member_text_exec(v: &JsonValue, key: &str) -> (r: Option<String>)
    ensures
        opt_view(r) == member_text(*v, key@),
{
    match crate::json::json_get_str(v, key) {
        Some(t) => {
            let tt = trim_chars(&chars_of(t.as_str()));
            if tt.len() > 0 {
                Some(string_of(&tt))
            } else {
                None
            }
        },
        None => None,
    }
}

/// The classification of an item as the sync reads it.
#[derive(Debug, Clone)]
pub struct ParsedClassificationPayload {
    pub labels: Vec<String>,
    pub tags: Vec<String>,
    pub key_points: Vec<String>,
    pub final_category: Option<String>,
    pub route_reason: Option<String>,
}

/// The labels, tags, key points, final category and route reason stored
/// for an item, before the defaults: a list is its labels; an object names
/// each (labels falling back to `classification`); anything else, or a
/// stored text that is not JSON (`None`), gives nothing.
pub open spec fn raw_classification(parsed: Option<JsonValue>) -> (
    Seq<Seq<char>>,
    Seq<Seq<char>>,
    Seq<Seq<char>>,
    Option<Seq<char>>,
    Option<Seq<char>>,
) {
    match parsed {
        Some(JsonValue::Array(items)) => (
            strings_in(items@),
            Seq::empty(),
            Seq::empty(),
            None,
            None,
        ),
        Some(v) => if v is Object {
            let labels = string_list_of(get(v, "labels"@));
            (
                if labels.len() == 0 {
                    string_list_of(get(v, "classification"@))
                } else {
                    labels
                },
                string_list_of(get(v, "tags"@)),
                string_list_of(get(v, "key_points"@)),
                member_text(v, "final_category"@),
                member_text(v, "route_reason"@),
            )
        } else {
            (Seq::empty(), Seq::empty(), Seq::empty(), None, None)
        },
        None => (Seq::empty(), Seq::empty(), Seq::empty(), None, None),
    }
}

/// The stored classification with its defaults: no labels means the
/// unclassified label, no tags means the labels, and at most five key
/// points are kept.
pub fn parse_classification_payload(parsed: Option<&JsonValue>) -> (r: ParsedClassificationPayload)
    ensures
        ({
            let (labels, tags, points, category, reason) = raw_classification(
                match parsed {
                    Some(v) => Some(*v),
                    None => None,
                },
            );
            let final_labels = if labels.len() == 0 {
                seq!["未分类"@]
            } else {
                labels
            };
            &&& string_views(r.labels@) == final_labels
            &&& string_views(r.tags@) == if tags.len() == 0 {
                final_labels
            } else {
                tags
            }
            &&& string_views(r.key_points@) == take_seq(points, 5)
            &&& opt_view(r.final_category) == category
            &&& opt_view(r.route_reason) == reason
        }),
{
    let (mut labels, tags, mut key_points, final_category, route_reason): (
        Vec<Vec<char>>,
        Vec<Vec<char>>,
        Vec<Vec<char>>,
        Option<String>,
        Option<String>,
    ) = match parsed {
        Some(JsonValue::Array(items)) => (
            strings_in_exec(items),
            Vec::new(),
            Vec::new(),
            None,
            None,
        ),
        Some(v) => match v {
            JsonValue::Object(_) => {
                let l = member_list(v, "labels");
                let labels = if l.len() == 0 {
                    member_list(v, "classification")
                } else {
                    l
                };
                (
                    labels,
                    member_list(v, "tags"),
                    member_list(v, "key_points"),
                    member_text_exec(v, "final_category"),
                    member_text_exec(v, "route_reason"),
                )
            },
            _ => (Vec::new(), Vec::new(), Vec::new(), None, None),
        },
        None => (Vec::new(), Vec::new(), Vec::new(), None, None),
    };
    if labels.len() == 0 {
        push_lit(&mut labels, "未分类");
        proof {
            assert(views(labels@) =~= seq!["未分类"@]);
        }
    }
    let tags = if tags.len() == 0 {
        crate::text::chars_list(&strings_of(&labels))
    } else {
        tags
    };
    if key_points.len() > 5 {
        key_points.truncate(5);
        proof {
            assert(views(key_points@) =~= views(key_points@).take(5));
        }
    }
    ParsedClassificationPayload {
        labels: strings_of(&labels),
        tags: strings_of(&tags),
        key_points: strings_of(&key_points),
        final_category,
        route_reason,
    }
}

/// A list that is kept only when it is not empty.
pub open spec fn non_empty_list(s: Seq<Seq<char>>) -> Option<Seq<Seq<char>>> {
    if s.len() == 0 {
        None
    } else {
        Some(s)
    }
}

pub open spec fn opt_list_view(o: Option<Vec<String>>) -> Option<Seq<Seq<char>>> {
    match o {
        Some(v) => Some(string_views(v@)),
        None => None,
    }
}

fn non_empty(v: Vec<Vec<char>>) -> (r: Option<Vec<String>>)
    ensures
        opt_list_view(r) == non_empty_list(views(v@)),
{
    if v.len() == 0 {
        None
    } else {
        Some(strings_of(&v))
    }
}

/// The classification of a published item as its history shows it. The
/// quality score, a float, is read by the caller.
#[derive(Debug, Clone)]
pub struct PublishClassificationPayload {
    pub key_points: Option<Vec<String>>,
    pub tags: Option<Vec<String>>,
    pub quality_state: Option<String>,
    pub degraded_fields: Option<Vec<String>>,
}

/// An object names its key points, tags, quality state and degraded fields
/// (empty lists read as absent); a list is the tags; anything else, or a
/// stored text that is blank or not JSON (`None`), gives nothing.
pub fn parse_publish_classification_payload(parsed: Option<&JsonValue>) -> (r:
    PublishClassificationPayload)
    ensures
        match parsed {
            Some(v) => match *v {
                JsonValue::Object(_) => opt_list_view(r.key_points) == non_empty_list(
                    string_list_of(get(*v, "key_points"@)),
                ) && opt_list_view(r.tags) == non_empty_list(string_list_of(get(*v, "tags"@)))
                    && opt_view(r.quality_state) == member_text(*v, "quality_state"@)
                    && opt_list_view(r.degraded_fields) == non_empty_list(
                    string_list_of(get(*v, "degraded_fields"@)),
                ),
                JsonValue::Array(items) => r.key_points is None && opt_list_view(r.tags)
                    == non_empty_list(strings_in(items@)) && r.quality_state is None
                    && r.degraded_fields is None,
                _ => r.key_points is None && r.tags is None && r.quality_state is None
                    && r.degraded_fields is None,
            },
            None => r.key_points is None && r.tags is None && r.quality_state is None
                && r.degraded_fields is None,
        },
{
    match parsed {
        Some(v) => match v {
            JsonValue::Object(_) => PublishClassificationPayload {
                key_points: non_empty(member_list(v, "key_points")),
                tags: non_empty(member_list(v, "tags")),
                quality_state: member_text_exec(v, "quality_state"),
                degraded_fields: non_empty(member_list(v, "degraded_fields")),
            },
            JsonValue::Array(items) => PublishClassificationPayload {
                key_points: None,
                tags: non_empty(strings_in_exec(items)),
                quality_state: None,
                degraded_fields: None,
            },
            _ => PublishClassificationPayload {
                key_points: None,
                tags: None,
                quality_state: None,
                degraded_fields: None,
            },
        },
        None => PublishClassificationPayload {
            key_points: None,
            tags: None,
            quality_state: None,
            degraded_fields: None,
        },
    }
}

/// A stored list of strings, trimmed, blank ones dropped; absent when
/// nothing is left or nothing was stored (`None`).
pub fn clean_string_list(list: Option<Vec<String>>) -> (r: Option<Vec<String>>)
    ensures
        opt_list_view(r) == match list {
            Some(v) => non_empty_list(kept_trimmed(string_views(v@))),
            None => None,
        },
{
    match list {
        Some(v) => non_empty(keep_trimmed(&crate::text::chars_list(&v))),
        None => None,
    }
}

/// The summary the sync shows: the stored one, or `-` when it is blank.
pub fn stored_summary_text(summary: String) -> (r: String)
    ensures
        r@ == if trim(summary@).len() == 0 {
            "-"@
        } else {
            summary@
        },
{
    if trim_chars(&chars_of(summary.as_str())).len() == 0 {
        crate::text::str_to_string("-")
    } else {
        summary
    }
}

} // verus!
