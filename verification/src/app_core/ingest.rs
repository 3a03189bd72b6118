//! The decisions of taking an item in: how it is routed for review, the ids
//! of its rows, what happens to its review queue entry and its publish
//! task, and the policy for Xiaohongshu items.

use vstd::prelude::*;
use crate::app_core::json_escaped;
use crate::error::BackendError;
use crate::num::{hash_hex_chars, hex_string, fnv1a};
use crate::sync_notion::render::add_distinct;
use crate::pipeline::analyze::take_seq;
use crate::text::{
    chars_list, chars_of, concat, list_contains, lit, str_eq, string_of, string_views, strings_of,
    take_chars, take_prefix, trim, trim_chars, views,
};

verus! {

// ── Review routing ──────────────────────────────────────────────────────────

/// A pipeline request needs content: a blank `content_raw` is refused with
/// `content_raw must not be empty`.
pub fn check_content_raw(content_raw: &str) -> (r: Result<(), BackendError>)
    ensures
        r is Ok <==> trim(content_raw@).len() > 0,
        r matches Err(e) ==> (e matches BackendError::Validation(m) && m@
            == "content_raw must not be empty"@),
{
    if trim_chars(&chars_of(content_raw)).len() == 0 {
        return Err(BackendError::Validation(crate::text::str_to_string("content_raw must not be empty")));
    }
    Ok(())
}

/// The review reasons written to the queue.
pub open spec fn xhs_manual_reason() -> Seq<char> {
    "XHS anomaly requires manual review"@
}

pub open spec fn xhs_auto_pass_reason() -> Seq<char> {
    "XHS auto-pass normal item"@
}

pub open spec fn score_rule_reason() -> Seq<char> {
    "C < 0.78 OR ValueScore >= 0.85"@
}

/// A Xiaohongshu item needs a person when the analysis asks for review,
/// when its text has fewer than four characters, or when the analysis is
/// unsure (`low_confidence`) or poor (`low_quality`).
pub open spec fn xhs_manual_review(
    requires_review: bool,
    low_confidence: bool,
    low_quality: bool,
    text_clean: Seq<char>,
) -> bool {
    requires_review || text_clean.len() < 4 || low_confidence || low_quality
}

pub fn xhs_requires_manual_review(
    requires_review: bool,
    low_confidence: bool,
    low_quality: bool,
    text_clean: &str,
) -> (r: bool)
    ensures
        r == xhs_manual_review(requires_review, low_confidence, low_quality, text_clean@),
{
    let n = chars_of(text_clean).len();
    requires_review || n < 4 || low_confidence || low_quality
}

/// How a new item is routed: whether it needs review, whether the review
/// is forced past a disabled review budget, why, and its final status.
#[derive(Debug, Clone)]
pub struct PipelineRouting {
    pub review_required: bool,
    pub force_review: bool,
    pub review_reason: String,
    pub final_status: String,
}

/// A Xiaohongshu item follows its own policy (`xhs_review`), and its review
/// is forced; any other item follows the analysis. An item under review is
/// `review`; otherwise a Xiaohongshu item goes `direct`, any other item to
/// its quality gate.
pub fn pipeline_routing(
    is_xhs: bool,
    xhs_review: bool,
    analysis_requires_review: bool,
    gate_status: &str,
) -> (r: PipelineRouting)
    ensures
        r.review_required == (if is_xhs {
            xhs_review
        } else {
            analysis_requires_review
        }),
        r.force_review == (is_xhs && xhs_review),
        r.review_reason@ == (if is_xhs {
            xhs_manual_reason()
        } else {
            score_rule_reason()
        }),
        r.final_status@ == (if r.review_required {
            "review"@
        } else if is_xhs {
            "direct"@
        } else {
            gate_status@
        }),
{
    let review_required = if is_xhs {
        xhs_review
    } else {
        analysis_requires_review
    };
    let reason = if is_xhs {
        "XHS anomaly requires manual review"
    } else {
        "C < 0.78 OR ValueScore >= 0.85"
    };
    let status = if review_required {
        "review"
    } else if is_xhs {
        "direct"
    } else {
        gate_status
    };
    PipelineRouting {
        review_required,
        force_review: is_xhs && xhs_review,
        review_reason: crate::text::str_to_string(reason),
        final_status: crate::text::str_to_string(status),
    }
}

/// What happens to an item's review queue entry.
#[derive(Debug, Clone, Copy, PartialEq, Eq, Structural)]
pub enum ReviewQueueAction {
    /// Nothing.
    Keep,
    /// Its closed entry is opened again (`pending`).
    Reopen,
    /// A `pending` entry is added.
    Insert,
    /// A Xiaohongshu item that needs no review gets a `done` entry.
    AutoPassInsert,
    /// A Xiaohongshu item that needs no review has its pending entry closed.
    AutoPassClose,
}

/// An item that needs review is queued when reviews are on or the review is
/// forced, unless an open entry exists (a closed one is reopened); a
/// Xiaohongshu item that is not queued is passed automatically.
pub open spec fn review_queue_action_of(
    review_required: bool,
    review_enabled: bool,
    force_review: bool,
    is_xhs: bool,
    entry_exists: bool,
    open_entry_exists: bool,
) -> ReviewQueueAction {
    if review_required && (review_enabled || force_review) {
        if open_entry_exists {
            ReviewQueueAction::Keep
        } else if entry_exists {
            ReviewQueueAction::Reopen
        } else {
            ReviewQueueAction::Insert
        }
    } else if is_xhs {
        if entry_exists {
            ReviewQueueAction::AutoPassClose
        } else {
            ReviewQueueAction::AutoPassInsert
        }
    } else {
        ReviewQueueAction::Keep
    }
}

pub fn review_queue_action(
    review_required: bool,
    review_enabled: bool,
    force_review: bool,
    is_xhs: bool,
    entry_exists: bool,
    open_entry_exists: bool,
) -> (r: ReviewQueueAction)
    ensures
        r == review_queue_action_of(
            review_required,
            review_enabled,
            force_review,
            is_xhs,
            entry_exists,
            open_entry_exists,
        ),
{
    if review_required && (review_enabled || force_review) {
        if open_entry_exists {
            ReviewQueueAction::Keep
        } else if entry_exists {
            ReviewQueueAction::Reopen
        } else {
            ReviewQueueAction::Insert
        }
    } else if is_xhs {
        if entry_exists {
            ReviewQueueAction::AutoPassClose
        } else {
            ReviewQueueAction::AutoPassInsert
        }
    } else {
        ReviewQueueAction::Keep
    }
}

impl ReviewQueueAction {
    /// Whether the item now waits in the review queue.
    pub fn queues_review(&self) -> (r: bool)
        ensures
            r == (*self == ReviewQueueAction::Reopen || *self == ReviewQueueAction::Insert),
    {
        match self {
            ReviewQueueAction::Reopen | ReviewQueueAction::Insert => true,
            _ => false,
        }
    }
}

/// A Xiaohongshu item waiting for review is held back from publishing.
pub fn publish_blocked_by_review(is_xhs: bool, review_queued: bool) -> (r: bool)
    ensures
        r == (is_xhs && review_queued),
{
    is_xhs && review_queued
}

/// The Notion action of an item: an update when it has a sync record, a
/// creation otherwise.
pub fn notion_action_label(has_sync_record: bool) -> (r: &'static str)
    ensures
        r@ == (if has_sync_record {
            "update"@
        } else {
            "create"@
        }),
{
    if has_sync_record {
        "update"
    } else {
        "create"
    }
}

/// An item is queued for review only when it needs one, a forced review is
/// never passed automatically, and only Xiaohongshu items are passed
/// automatically.
pub proof fn law_review_never_skipped(
    review_required: bool,
    review_enabled: bool,
    force_review: bool,
    is_xhs: bool,
    entry_exists: bool,
    open_entry_exists: bool,
)
    ensures
        ({
            let a = review_queue_action_of(
                review_required,
                review_enabled,
                force_review,
                is_xhs,
                entry_exists,
                open_entry_exists,
            );
            &&& (a == ReviewQueueAction::Reopen || a == ReviewQueueAction::Insert) ==> review_required
            &&& (review_required && force_review) ==> (a != ReviewQueueAction::AutoPassInsert && a
                != ReviewQueueAction::AutoPassClose)
            &&& (a == ReviewQueueAction::AutoPassInsert || a == ReviewQueueAction::AutoPassClose)
                ==> is_xhs
        }),
{
}

// ── Row ids ─────────────────────────────────────────────────────────────────

/// `format!("{:x}", stable_hash(s))`.
pub open spec fn hex_hash(s: Seq<char>) -> Seq<char> {
    hex_string(fnv1a(vstd::utf8::encode_utf8(s)) as nat)
}

/// The ids of the rows an item is written to.
#[derive(Debug, Clone)]
pub struct PipelineIds {
    pub external_id: String,
    pub source_item_id: String,
    pub normalized_item_id: String,
    pub analysis_result_id: String,
    pub sync_record_id: String,
    pub review_id: String,
    pub dedupe_id: String,
    pub publish_task_id: String,
    pub target_record_id: String,
}

/// The ids of an item's rows, all derived from its source, URL hash,
/// fingerprint and deduplication key, so that the same item always lands
/// on the same rows.
pub fn pipeline_ids(source: &str, url_hash: &str, fingerprint: &str, dedupe_key: &str) -> (r:
    PipelineIds)
    ensures
        r.external_id@ == "ext_"@ + hex_hash(url_hash@ + "|"@ + fingerprint@),
        r.source_item_id@ == "src_"@ + hex_hash(source@ + "|"@ + r.external_id@),
        r.normalized_item_id@ == "norm_"@ + dedupe_key@,
        r.analysis_result_id@ == "ana_"@ + dedupe_key@,
        r.sync_record_id@ == "sync_"@ + dedupe_key@,
        r.review_id@ == "rvw_"@ + dedupe_key@,
        r.dedupe_id@ == "dup_"@ + dedupe_key@,
        r.publish_task_id@ == "pt_"@ + r.source_item_id@,
        r.target_record_id@ == "ntn_"@ + take_chars(dedupe_key@, 12),
{
    let bar = lit("|");
    let ext = concat(
        &lit("ext_"),
        &hash_hex_chars(&concat(&concat(&chars_of(url_hash), &bar), &chars_of(fingerprint))),
    );
    let src = concat(&lit("src_"), &hash_hex_chars(&concat(&concat(&chars_of(source), &bar), &ext)));
    let key = chars_of(dedupe_key);
    PipelineIds {
        external_id: string_of(&ext),
        source_item_id: string_of(&src),
        normalized_item_id: string_of(&concat(&lit("norm_"), &key)),
        analysis_result_id: string_of(&concat(&lit("ana_"), &key)),
        sync_record_id: string_of(&concat(&lit("sync_"), &key)),
        review_id: string_of(&concat(&lit("rvw_"), &key)),
        dedupe_id: string_of(&concat(&lit("dup_"), &key)),
        publish_task_id: string_of(&concat(&lit("pt_"), &src)),
        target_record_id: string_of(&concat(&lit("ntn_"), &take_prefix(&key, 12))),
    }
}

/// The id of a pipeline dead letter: `dlq_` and the hash of the stage, the
/// entity, the error code and the message.
pub fn pipeline_dead_letter_id(stage: &str, entity_id: &str, error_code: &str, error_message: &str) -> (r:
    String)
    ensures
        r@ == "dlq_"@ + hex_hash(
            stage@ + "|"@ + entity_id@ + "|"@ + error_code@ + "|"@ + error_message@,
        ),
{
    let bar = lit("|");
    let joined = concat(
        &concat(
            &concat(
                &concat(&concat(&concat(&chars_of(stage), &bar), &chars_of(entity_id)), &bar),
                &chars_of(error_code),
            ),
            &bar,
        ),
        &chars_of(error_message),
    );
    string_of(&concat(&lit("dlq_"), &hash_hex_chars(&joined)))
}

// ── Xiaohongshu policy ──────────────────────────────────────────────────────

/// A pending Xiaohongshu review is kept for a person when the score rule
/// asks for review, the quality is low, or the trimmed content has fewer
/// than four characters; otherwise it is passed automatically.
pub open spec fn xhs_needs_manual(score_rule_review: bool, low_quality: bool, content_len: i64) -> bool {
    score_rule_review || low_quality || content_len < 4
}

pub fn xhs_review_needs_person(score_rule_review: bool, low_quality: bool, content_len: i64) -> (r:
    bool)
    ensures
        r == xhs_needs_manual(score_rule_review, low_quality, content_len),
{
    score_rule_review || low_quality || content_len < 4
}

/// The state and reason of a review entry filled in for a Xiaohongshu item
/// that had none.
pub fn xhs_backfill_entry(needs_manual: bool) -> (r: (&'static str, &'static str))
    ensures
        r.0@ == (if needs_manual {
            "pending"@
        } else {
            "done"@
        }),
        r.1@ == (if needs_manual {
            xhs_manual_reason()
        } else {
            xhs_auto_pass_reason()
        }),
{
    if needs_manual {
        ("pending", "XHS anomaly requires manual review")
    } else {
        ("done", "XHS auto-pass normal item")
    }
}

/// The id of such an entry: `rvw_bf_` and the hash of the item's ids and
/// fingerprint.
pub fn backfill_review_id(normalized_item_id: &str, analysis_result_id: &str, fingerprint: &str) -> (r:
    String)
    ensures
        r@ == "rvw_bf_"@ + hex_hash(
            normalized_item_id@ + "|"@ + analysis_result_id@ + "|"@ + fingerprint@,
        ),
{
    let bar = lit("|");
    let joined = concat(
        &concat(
            &concat(&concat(&chars_of(normalized_item_id), &bar), &chars_of(analysis_result_id)),
            &bar,
        ),
        &chars_of(fingerprint),
    );
    string_of(&concat(&lit("rvw_bf_"), &hash_hex_chars(&joined)))
}

/// The payload recorded for a collected item the pipeline refused.
pub fn xhs_collect_payload(external_id: &str, source_url: &str) -> (r: String)
    ensures
        r@ == "{\"external_id\":\""@ + json_escaped(external_id@) + "\",\"source_url\":\""@
            + json_escaped(source_url@) + "\"}"@,
{
    let e = crate::app_core::escape_json(external_id);
    let u = crate::app_core::escape_json(source_url);
    let p = concat(
        &concat(
            &concat(&concat(&lit("{\"external_id\":\""), &chars_of(e.as_str())), &lit("\",\"source_url\":\"")),
            &chars_of(u.as_str()),
        ),
        &lit("\"}"),
    );
    string_of(&p)
}

/// The payload recorded for a WeChat file that could not be read or
/// persisted: its path, so that a replay can find it again.
pub fn file_path_payload(path: &str) -> (r: String)
    ensures
        r@ == "{\"path\":\""@ + json_escaped(path@) + "\"}"@,
{
    let p = crate::app_core::escape_json(path);
    let out = concat(&concat(&lit("{\"path\":\""), &chars_of(p.as_str())), &lit("\"}"));
    string_of(&out)
}

/// A collected item that the pipeline refused is filed as a dead letter,
/// unless the failure was the database's or internal (those are recorded
/// by the pipeline itself).
pub fn files_collect_dead_letter(err: &BackendError) -> (r: bool)
    ensures
        r == !(err is Storage || err is Internal),
{
    match err {
        BackendError::Storage(_) | BackendError::Internal(_) => false,
        _ => true,
    }
}

/// The media of a collected item as stored: the trimmed cover when not
/// blank, and at most eight distinct trimmed image URLs, in order.
pub fn media_fields(cover_url: Option<&str>, image_urls: &Vec<String>) -> (r: (
    Option<String>,
    Vec<String>,
))
    ensures
        match cover_url {
            Some(c) => if trim(c@).len() > 0 {
                r.0 is Some && r.0.unwrap()@ == trim(c@)
            } else {
                r.0 is None
            },
            None => r.0 is None,
        },
        string_views(r.1@) == take_seq(add_distinct(Seq::empty(), string_views(image_urls@)), 8),
{
    let cover = match cover_url {
        Some(c) => {
            let t = trim_chars(&chars_of(c));
            if t.len() > 0 {
                Some(string_of(&t))
            } else {
                None
            }
        },
        None => None,
    };
    let items = chars_list(image_urls);
    let ghost all = views(items@);
    let mut acc: Vec<Vec<char>> = Vec::new();
    let mut i: usize = 0;
    proof {
        assert(all == string_views(image_urls@));
    }
    while i < items.len()
        invariant
            i <= items.len(),
            all == views(items@),
            views(acc@) == add_distinct(Seq::empty(), all.take(i as int)),
        decreases items.len() - i,
    {
        proof {
            assert(all.take(i + 1).drop_last() =~= all.take(i as int));
            assert(all.take(i + 1).last() == items@[i as int]@);
        }
        let t = trim_chars(&items[i]);
        if t.len() > 0 && !list_contains(&acc, &t) {
            let ghost before = views(acc@);
            acc.push(t);
            proof {
                assert(views(acc@) =~= before.push(t@));
            }
        }
        i = i + 1;
    }
    proof {
        assert(all.take(items.len() as int) =~= all);
    }
    if acc.len() > 8 {
        acc.truncate(8);
        proof {
            assert(views(acc@) =~= views(acc@).take(8));
        }
    }
    (cover, strings_of(&acc))
}

} // verus!
