//! The smoke check of a sync run: what was written locally is compared with
//! what Notion gives back, item by item, and the run is summed up as a job
//! run.

use vstd::prelude::*;
pub use crate::config::opt_view;
use crate::num::{dec_chars, dec_string, parse_u64, parse_unsigned, parse_usize};
use crate::sync_notion::notion_api::NotionPageSnapshot;
use crate::sync_notion::service::SyncRunSummary;
use crate::sync_notion::tree::{clean_item_title, clean_title};
use crate::text::{
    byte_len, byte_len_exceeds, chars_eq, chars_of, collapse_chars, collapse_ws, concat,
    contains, contains_chars, lit, string_of, trim, trim_chars, trim_str,
};

verus! {

/// How one synced item compares with its remote page.
#[derive(Debug, Clone)]
pub struct NotionSmokeItem {
    pub sync_record_id: String,
    pub normalized_item_id: String,
    pub remote_found: bool,
    pub title_match: bool,
    pub summary_match: bool,
    pub source_match: bool,
    pub source_url_match: bool,
    pub overall_match: bool,
}

/// The report of one smoke run.
#[derive(Debug, Clone)]
pub struct NotionSmokeReport {
    pub mode: String,
    pub started_at: String,
    pub summary: SyncRunSummary,
    pub checked: u32,
    pub matched: u32,
    pub mismatched: u32,
    pub items: Vec<NotionSmokeItem>,
}

/// What the database mode wrote for an item.
#[derive(Debug, Clone)]
pub struct LocalSyncSnapshot {
    pub sync_record_id: String,
    pub normalized_item_id: String,
    pub title: String,
    pub summary: String,
    pub source: String,
    pub source_url: Option<String>,
}

/// What the page-tree mode wrote for an item, with the page and blocks that
/// hold it.
#[derive(Debug, Clone)]
pub struct LocalTreeSyncSnapshot {
    pub sync_record_id: String,
    pub normalized_item_id: String,
    pub title: String,
    pub summary: String,
    pub source: String,
    pub source_url: Option<String>,
    pub page_id: Option<String>,
    pub meta_block_id: Option<String>,
    pub summary_block_id: Option<String>,
}

/// A URL without surrounding white space and without trailing slashes, as
/// long as more than `https://` is left.
pub open spec fn strip_slashes(s: Seq<char>) -> Seq<char>
    decreases s.len(),
{
    if s.len() > 0 && s.last() == '/' && byte_len(s) > 8 {
        strip_slashes(s.drop_last())
    } else {
        s
    }
}

pub open spec fn url_norm(s: Seq<char>) -> Seq<char> {
    strip_slashes(trim(s))
}

pub open spec fn opt_url_norm(o: Option<String>) -> Option<Seq<char>> {
    match o {
        Some(s) => Some(url_norm(s@)),
        None => None,
    }
}

/// White-space runs collapsed to one space, none at the ends.
pub fn text_normalize(input: &str) -> (r: String)
    ensures
        r@ == collapse_ws(input@),
{
    string_of(&collapse_chars(&chars_of(input)))
}

fn url_norm_chars(s: &str) -> (r: Vec<char>)
    ensures
        r@ == url_norm(s@),
{
    let mut v = trim_str(s);
    while v.len() > 0 && v[v.len() - 1] == '/' && byte_len_exceeds(&v, 8)
        invariant
            strip_slashes(v@) == url_norm(s@),
        decreases v.len(),
    {
        let ghost before = v@;
        v.pop();
        proof {
            assert(v@ =~= before.drop_last());
        }
    }
    v
}

/// The URL trimmed and without trailing slashes (as long as more than
/// `https://` is left).
pub fn normalize_url_opt(input: Option<&str>) -> (r: Option<String>)
    ensures
        match input {
            Some(s) => r.is_some() && r.unwrap()@ == url_norm(s@),
            None => r.is_none(),
        },
{
    match input {
        Some(s) => Some(string_of(&url_norm_chars(s))),
        None => None,
    }
}

fn url_opt_eq(a: &Option<String>, b: &Option<String>) -> (r: bool)
    ensures
        r == (opt_url_norm(*a) == opt_url_norm(*b)),
{
    match (a, b) {
        (Some(x), Some(y)) => chars_eq(&url_norm_chars(x.as_str()), &url_norm_chars(y.as_str())),
        (None, None) => true,
        _ => false,
    }
}

/// The item of a remote page that was not found.
pub open spec fn not_found_item(r: NotionSmokeItem) -> bool {
    &&& !r.remote_found
    &&& !r.title_match
    &&& !r.summary_match
    &&& !r.source_match
    &&& !r.source_url_match
    &&& !r.overall_match
}

fn missing_item(sync_record_id: &String, normalized_item_id: &String) -> (r: NotionSmokeItem)
    ensures
        not_found_item(r),
        r.sync_record_id@ == sync_record_id@,
        r.normalized_item_id@ == normalized_item_id@,
{
    NotionSmokeItem {
        sync_record_id: crate::text::str_to_string(sync_record_id.as_str()),
        normalized_item_id: crate::text::str_to_string(normalized_item_id.as_str()),
        remote_found: false,
        title_match: false,
        summary_match: false,
        source_match: false,
        source_url_match: false,
        overall_match: false,
    }
}

/// Compares a database-mode item with its remote page: titles and summaries
/// up to white space, sources up to surrounding white space, URLs up to
/// trailing slashes; all of these and the item id must agree for an overall
/// match.
pub fn compare_snapshot(local: &LocalSyncSnapshot, remote: Option<&NotionPageSnapshot>) -> (r:
    NotionSmokeItem)
    ensures
        r.sync_record_id@ == local.sync_record_id@,
        r.normalized_item_id@ == local.normalized_item_id@,
        r.remote_found == remote.is_some(),
        match remote {
            None => not_found_item(r),
            Some(rm) => {
                &&& r.title_match == (collapse_ws(local.title@) == collapse_ws(rm.title@))
                &&& r.summary_match == (collapse_ws(local.summary@) == collapse_ws(rm.summary@))
                &&& r.source_match == (trim(local.source@) == trim(rm.source@))
                &&& r.source_url_match == (opt_url_norm(local.source_url) == opt_url_norm(
                    rm.source_url,
                ))
                &&& r.overall_match == (r.title_match && r.summary_match && r.source_match
                    && r.source_url_match && trim(local.normalized_item_id@) == trim(
                    rm.normalized_item_id@,
                ))
            },
        },
{
    let rm = match remote {
        None => {
            return missing_item(&local.sync_record_id, &local.normalized_item_id);
        },
        Some(rm) => rm,
    };
    let title_match = chars_eq(
        &collapse_chars(&chars_of(local.title.as_str())),
        &collapse_chars(&chars_of(rm.title.as_str())),
    );
    let summary_match = chars_eq(
        &collapse_chars(&chars_of(local.summary.as_str())),
        &collapse_chars(&chars_of(rm.summary.as_str())),
    );
    let source_match = chars_eq(&trim_str(local.source.as_str()), &trim_str(rm.source.as_str()));
    let source_url_match = url_opt_eq(&local.source_url, &rm.source_url);
    let id_match = chars_eq(
        &trim_str(local.normalized_item_id.as_str()),
        &trim_str(rm.normalized_item_id.as_str()),
    );
    NotionSmokeItem {
        sync_record_id: crate::text::str_to_string(local.sync_record_id.as_str()),
        normalized_item_id: crate::text::str_to_string(local.normalized_item_id.as_str()),
        remote_found: true,
        title_match,
        summary_match,
        source_match,
        source_url_match,
        overall_match: title_match && summary_match && source_match && source_url_match
            && id_match,
    }
}

pub open spec fn opt_text(o: Option<&str>) -> Seq<char> {
    match o {
        Some(s) => s@,
        None => Seq::empty(),
    }
}

/// The URL the metadata block names: the trimmed source URL, or `-`.
pub open spec fn expected_url(o: Option<String>) -> Seq<char> {
    match o {
        Some(s) => trim(s@),
        None => "-"@,
    }
}

/// Compares a page-tree item with the title of its page and the texts of its
/// metadata and summary blocks (missing blocks read as empty). The summary
/// matches up to white space, or when the remote text contains the trimmed
/// local summary; source, URL and item id must appear in the metadata.
pub fn compare_tree_snapshot(
    local: &LocalTreeSyncSnapshot,
    remote_title: Option<&str>,
    remote_meta: Option<&str>,
    remote_summary: Option<&str>,
) -> (r: NotionSmokeItem)
    ensures
        r.sync_record_id@ == local.sync_record_id@,
        r.normalized_item_id@ == local.normalized_item_id@,
        r.remote_found == remote_title.is_some(),
        match remote_title {
            None => not_found_item(r),
            Some(title) => {
                let meta = opt_text(remote_meta);
                let summary = opt_text(remote_summary);
                let local_summary = trim(local.summary@);
                &&& r.title_match == (collapse_ws(clean_title(local.title@)) == collapse_ws(
                    title@,
                ))
                &&& r.summary_match == (collapse_ws(local_summary) == collapse_ws(summary) || (
                local_summary.len() > 0 && contains(summary, local_summary)))
                &&& r.source_match == contains(meta, "source: "@ + local.source@)
                &&& r.source_url_match == contains(meta, "url: "@ + expected_url(local.source_url))
                &&& r.overall_match == (r.title_match && r.summary_match && r.source_match
                    && r.source_url_match && contains(
                    meta,
                    "normalized_id: "@ + local.normalized_item_id@,
                ))
            },
        },
{
    let title = match remote_title {
        None => {
            return missing_item(&local.sync_record_id, &local.normalized_item_id);
        },
        Some(t) => t,
    };
    let meta: Vec<char> = match remote_meta {
        Some(m) => chars_of(m),
        None => Vec::new(),
    };
    let summary: Vec<char> = match remote_summary {
        Some(m) => chars_of(m),
        None => Vec::new(),
    };
    let expected_title = clean_item_title(local.title.as_str());
    let title_match = chars_eq(
        &collapse_chars(&chars_of(expected_title.as_str())),
        &collapse_chars(&chars_of(title)),
    );
    let local_summary = trim_str(local.summary.as_str());
    let summary_match = chars_eq(&collapse_chars(&local_summary), &collapse_chars(&summary)) || (
    local_summary.len() > 0 && contains_chars(&summary, &local_summary));
    let source_match = contains_chars(
        &meta,
        &concat(&lit("source: "), &chars_of(local.source.as_str())),
    );
    let url: Vec<char> = match &local.source_url {
        Some(u) => trim_str(u.as_str()),
        None => lit("-"),
    };
    let source_url_match = contains_chars(&meta, &concat(&lit("url: "), &url));
    let id_match = contains_chars(
        &meta,
        &concat(&lit("normalized_id: "), &chars_of(local.normalized_item_id.as_str())),
    );
    NotionSmokeItem {
        sync_record_id: crate::text::str_to_string(local.sync_record_id.as_str()),
        normalized_item_id: crate::text::str_to_string(local.normalized_item_id.as_str()),
        remote_found: true,
        title_match,
        summary_match,
        source_match,
        source_url_match,
        overall_match: title_match && summary_match && source_match && source_url_match
            && id_match,
    }
}

// ── The report ──────────────────────────────────────────────────────────────

/// The number of items that match overall.
pub open spec fn matched_count(items: Seq<NotionSmokeItem>) -> nat
    decreases items.len(),
{
    if items.len() == 0 {
        0
    } else {
        matched_count(items.drop_last()) + if items.last().overall_match {
            1nat
        } else {
            0nat
        }
    }
}

pub proof fn lemma_matched_count_bound(items: Seq<NotionSmokeItem>)
    ensures
        matched_count(items) <= items.len(),
    decreases items.len(),
{
    if items.len() > 0 {
        lemma_matched_count_bound(items.drop_last());
    }
}

/// The report of a smoke run over the compared `items`: every checked item
/// either matched or did not.
pub fn smoke_report(
    mode: &str,
    started_at: String,
    summary: SyncRunSummary,
    items: Vec<NotionSmokeItem>,
) -> (r: NotionSmokeReport)
    requires
        items.len() <= u32::MAX,
    ensures
        r.mode@ == mode@,
        r.started_at == started_at,
        r.summary == summary,
        r.items@ == items@,
        r.checked == items.len(),
        r.matched == matched_count(items@),
        r.checked == r.matched + r.mismatched,
{
    let mut matched: u32 = 0;
    let mut i: usize = 0;
    while i < items.len()
        invariant
            i <= items.len(),
            items.len() <= u32::MAX,
            matched == matched_count(items@.take(i as int)),
        decreases items.len() - i,
    {
        proof {
            assert(items@.take(i as int + 1).drop_last() =~= items@.take(i as int));
            lemma_matched_count_bound(items@.take(i as int));
        }
        if items[i].overall_match {
            matched = matched + 1;
        }
        i = i + 1;
    }
    proof {
        assert(items@.take(items.len() as int) =~= items@);
        lemma_matched_count_bound(items@);
    }
    let checked = items.len() as u32;
    NotionSmokeReport {
        mode: crate::text::str_to_string(mode),
        started_at,
        summary,
        checked,
        matched,
        mismatched: checked - matched,
        items,
    }
}

/// How a smoke run is recorded as a job run.
#[derive(Debug, Clone)]
pub struct SmokeJobOutcome {
    pub status: String,
    pub success_count: u32,
    pub fail_count: u32,
    pub error_code: Option<String>,
    pub error_message: Option<String>,
}

/// The status of the job run: `skipped` when nothing was attempted,
/// `partial` when an item failed or mismatched, `success` otherwise.
pub open spec fn smoke_status(attempted: u32, fail_count: int) -> Seq<char> {
    if attempted == 0 {
        "skipped"@
    } else if fail_count > 0 {
        "partial"@
    } else {
        "success"@
    }
}

/// The job run of a smoke report: failures count failed syncs and
/// mismatched items; a mismatch is reported as `INT-9000` before a failed
/// sync as `MOD-3002`.
pub fn smoke_job_outcome(report: &NotionSmokeReport) -> (r: SmokeJobOutcome)
    requires
        report.summary.failed + report.mismatched <= u32::MAX,
    ensures
        r.success_count == report.summary.succeeded,
        r.fail_count == report.summary.failed + report.mismatched,
        r.status@ == smoke_status(report.summary.attempted, r.fail_count as int),
        opt_view(r.error_code) == (if report.mismatched > 0 {
            Some("INT-9000"@)
        } else if report.summary.failed > 0 {
            Some("MOD-3002"@)
        } else {
            None
        }),
        opt_view(r.error_message) == (if report.mismatched > 0 {
            Some("notion smoke mismatched count: "@ + dec_string(report.mismatched as nat))
        } else if report.summary.failed > 0 {
            Some("notion sync failed count: "@ + dec_string(report.summary.failed as nat))
        } else {
            None
        }),
{
    let fail_count = report.summary.failed + report.mismatched;
    let status = if report.summary.attempted == 0 {
        "skipped"
    } else if fail_count > 0 {
        "partial"
    } else {
        "success"
    };
    let (error_code, error_message) = if report.mismatched > 0 {
        (
            Some(crate::text::str_to_string("INT-9000")),
            Some(
                string_of(
                    &concat(
                        &lit("notion smoke mismatched count: "),
                        &dec_chars(report.mismatched as u64),
                    ),
                ),
            ),
        )
    } else if report.summary.failed > 0 {
        (
            Some(crate::text::str_to_string("MOD-3002")),
            Some(
                string_of(
                    &concat(
                        &lit("notion sync failed count: "),
                        &dec_chars(report.summary.failed as u64),
                    ),
                ),
            ),
        )
    } else {
        (None, None)
    };
    SmokeJobOutcome {
        status: crate::text::str_to_string(status),
        success_count: report.summary.succeeded,
        fail_count,
        error_code,
        error_message,
    }
}

// ── Settings and exit status of the smoke command ──────────────────────────

/// `v.clamp(min, max)`.
pub open spec fn clamp_nat(v: nat, min: nat, max: nat) -> nat {
    if v < min {
        min
    } else if v > max {
        max
    } else {
        v
    }
}

/// A numeric setting of the smoke command: the value read, as a decimal
/// number up to `limit`, clamped to `[min, max]`; the default when nothing
/// was read or what was read is no such number.
pub open spec fn setting_value(raw: Option<Seq<char>>, default: nat, min: nat, max: nat, limit: nat) -> nat {
    match raw {
        None => default,
        Some(s) => match parse_unsigned(s, limit) {
            None => default,
            Some(v) => clamp_nat(v, min, max),
        },
    }
}

pub open spec fn opt_str_view(o: Option<&str>) -> Option<Seq<char>> {
    match o {
        Some(s) => Some(s@),
        None => None,
    }
}

/// The `usize` setting whose environment value is `raw`.
pub fn parse_usize_env(raw: Option<&str>, default: usize, min: usize, max: usize) -> (r: usize)
    requires
        min <= max,
    ensures
        r == setting_value(opt_str_view(raw), default as nat, min as nat, max as nat, usize::MAX as nat),
{
    match raw {
        None => default,
        Some(s) => match parse_usize(s) {
            None => default,
            Some(v) => if v < min {
                min
            } else if v > max {
                max
            } else {
                v
            },
        },
    }
}

/// The `u64` setting whose environment value is `raw`.
pub fn parse_u64_env(raw: Option<&str>, default: u64, min: u64, max: u64) -> (r: u64)
    requires
        min <= max,
    ensures
        r == setting_value(opt_str_view(raw), default as nat, min as nat, max as nat, u64::MAX as nat),
{
    match raw {
        None => default,
        Some(s) => match parse_u64(s) {
            None => default,
            Some(v) => if v < min {
                min
            } else if v > max {
                max
            } else {
                v
            },
        },
    }
}

/// The exit status of the smoke command after a report: 3 when nothing was
/// attempted, 2 when an item mismatched, 0 otherwise.
pub fn smoke_exit_code(report: &NotionSmokeReport) -> (r: i32)
    ensures
        r == (if report.summary.attempted == 0 {
            3i32
        } else if report.mismatched > 0 {
            2i32
        } else {
            0i32
        }),
{
    if report.summary.attempted == 0 {
        3
    } else if report.mismatched > 0 {
        2
    } else {
        0
    }
}

} // verus!
