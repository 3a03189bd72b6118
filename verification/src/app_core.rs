//! The records that the application core exchanges with the desktop client,
//! and the validation and decision rules of its commands.

use vstd::prelude::*;
pub use crate::config::opt_view;

pub mod ingest;
pub mod insight;

use crate::error::BackendError;
use crate::text::{
    ascii_lower, ascii_lower_chars, chars_eq, chars_of, lit, push_lit, str_eq, string_of, subst,
    subst_exec, trim, trim_chars, views,
};

verus! {

#[derive(Debug, Clone)]
pub struct JobRunResult {
    pub job_run_id: String,
    pub status: String,
    pub queued_tasks: u32,
}

#[derive(Debug, Clone)]
pub struct ImportSummary {
    pub batch_id: String,
    pub total: u32,
    pub imported: u32,
    pub duplicates: u32,
    pub failed: u32,
}

#[derive(Debug, Clone)]
pub struct ImportPersistSummary {
    pub batch_id: String,
    pub total: u32,
    pub parsed_ok: u32,
    pub duplicates: u32,
    pub parse_failed: u32,
    pub persisted: u32,
    pub persist_failed: u32,
}

#[derive(Debug, Clone)]
pub struct CollectResult {
    pub source: String,
    pub fetched: u32,
    pub stored: u32,
}

#[derive(Debug, Clone)]
pub struct CollectionSourceBreakdown {
    pub source: String,
    pub count: u32,
}

#[derive(Debug, Clone)]
pub struct CollectionRecentItem {
    pub source: String,
    pub title: String,
    pub collected_at: String,
    pub review_state: String,
    pub sync_state: String,
}

#[derive(Debug, Clone)]
pub struct CollectionInsight {
    pub day: String,
    pub today_total: u32,
    pub sources: Vec<CollectionSourceBreakdown>,
    pub review_pending: u32,
    pub review_done: u32,
    pub review_rejected: u32,
    pub direct_no_review: u32,
    pub sync_pending: u32,
    pub sync_success: u32,
    pub sync_failed: u32,
    pub sync_retry: u32,
    pub sync_not_started: u32,
    pub recent_items: Vec<CollectionRecentItem>,
}

#[derive(Debug, Clone)]
pub struct Paged<T> {
    pub items: Vec<T>,
    pub page: u32,
    pub page_size: u32,
    pub total: u64,
}

#[derive(Debug, Clone)]
pub struct PageReq {
    pub page: u32,
    pub page_size: u32,
}

#[derive(Debug, Clone)]
pub struct ReviewPatch {
    pub state: Option<String>,
    pub note: Option<String>,
}

#[derive(Debug, Clone)]
pub struct RetryResult {
    pub requested: u32,
    pub requeued: u32,
    pub ignored: u32,
}

#[derive(Debug, Clone)]
pub struct DateRange {
    pub from: String,
    pub to: String,
}

#[derive(Debug, Clone)]
pub struct SyncLog {
    pub id: String,
    pub state: String,
    pub error_code: Option<String>,
    pub created_at: String,
}

#[derive(Debug, Clone)]
pub struct PipelinePreviewReq {
    pub source: String,
    pub source_url: Option<String>,
    pub published_at: Option<String>,
    pub content_raw: String,
}

#[derive(Debug, Clone)]
pub struct PipelineExecuteResult {
    pub source_item_id: String,
    pub normalized_item_id: String,
    pub analysis_result_id: String,
    pub review_queued: bool,
    pub sync_record_id: String,
    pub notion_action: String,
}

// ── Filters ─────────────────────────────────────────────────────────────────

/// A filter value trimmed, absent when nothing is left.
pub open spec fn optional_filter(value: Option<Seq<char>>) -> Option<Seq<char>> {
    match value {
        Some(v) => if trim(v).len() > 0 {
            Some(trim(v))
        } else {
            None
        },
        None => None,
    }
}

pub fn normalize_optional_filter(value: Option<String>) -> (r: Option<String>)
    ensures
        opt_view(r) == optional_filter(opt_view(value)),
{
    match value {
        Some(v) => {
            let t = trim_chars(&chars_of(v.as_str()));
            if t.len() > 0 {
                Some(string_of(&t))
            } else {
                None
            }
        },
        None => None,
    }
}

/// A filter that, when given, must be one of `allowed` after trimming and
/// ASCII lower-casing.
pub open spec fn enum_filter(value: Option<Seq<char>>, allowed: Seq<Seq<char>>) -> Option<
    Option<Seq<char>>,
> {
    match optional_filter(value) {
        Some(v) => if allowed.contains(ascii_lower(v)) {
            Some(Some(ascii_lower(v)))
        } else {
            None
        },
        None => Some(None),
    }
}

pub open spec fn status_values() -> Seq<Seq<char>> {
    seq!["started"@, "success"@, "failed"@, "partial"@, "skipped"@]
}

pub open spec fn review_state_values() -> Seq<Seq<char>> {
    seq!["pending"@, "processing"@, "done"@, "rejected"@]
}

fn enum_filter_exec(value: Option<String>, allowed: &Vec<Vec<char>>, what: &str, list: &str) -> (r:
    Result<Option<String>, BackendError>)
    ensures
        match enum_filter(opt_view(value), views(allowed@)) {
            Some(v) => r matches Ok(o) && opt_view(o) == v,
            None => r matches Err(e) && e is Validation,
        },
{
    match normalize_optional_filter(value) {
        Some(v) => {
            let l = ascii_lower_chars(&chars_of(v.as_str()));
            if crate::text::list_contains(allowed, &l) {
                Ok(Some(string_of(&l)))
            } else {
                let mut m = crate::text::str_to_string(what);
                m.append(" must be one of ");
                m.append(list);
                m.append(", got ");
                m.append(string_of(&l).as_str());
                Err(BackendError::Validation(m))
            }
        },
        None => Ok(None),
    }
}

pub fn normalize_status_filter(status: Option<String>) -> (r: Result<Option<String>, BackendError>)
    ensures
        match enum_filter(opt_view(status), status_values()) {
            Some(v) => r matches Ok(o) && opt_view(o) == v,
            None => r matches Err(e) && e is Validation,
        },
{
    let mut allowed: Vec<Vec<char>> = Vec::new();
    push_lit(&mut allowed, "started");
    push_lit(&mut allowed, "success");
    push_lit(&mut allowed, "failed");
    push_lit(&mut allowed, "partial");
    push_lit(&mut allowed, "skipped");
    proof {
        assert(views(allowed@) =~= status_values());
    }
    enum_filter_exec(status, &allowed, "status", "started|success|failed|partial|skipped")
}

pub fn normalize_review_state_filter(state: Option<String>) -> (r: Result<
    Option<String>,
    BackendError,
>)
    ensures
        match enum_filter(opt_view(state), review_state_values()) {
            Some(v) => r matches Ok(o) && opt_view(o) == v,
            None => r matches Err(e) && e is Validation,
        },
{
    let mut allowed: Vec<Vec<char>> = Vec::new();
    push_lit(&mut allowed, "pending");
    push_lit(&mut allowed, "processing");
    push_lit(&mut allowed, "done");
    push_lit(&mut allowed, "rejected");
    proof {
        assert(views(allowed@) =~= review_state_values());
    }
    enum_filter_exec(state, &allowed, "state", "pending|processing|done|rejected")
}

// ── Escaping ────────────────────────────────────────────────────────────────

/// Backslashes and double quotes escaped with a backslash.
pub open spec fn json_escaped(v: Seq<char>) -> Seq<char> {
    subst(v, seq!['\\', '"'], seq!["\\\\"@, "\\\""@])
}

pub fn escape_json(v: &str) -> (r: String)
    ensures
        r@ == json_escaped(v@),
{
    let mut from: Vec<char> = Vec::new();
    from.push('\\');
    from.push('"');
    let mut to: Vec<Vec<char>> = Vec::new();
    push_lit(&mut to, "\\\\");
    push_lit(&mut to, "\\\"");
    proof {
        assert(from@ =~= seq!['\\', '"']);
        assert(views(to@) =~= seq!["\\\\"@, "\\\""@]);
    }
    string_of(&subst_exec(&chars_of(v), &from, &to))
}

// ── Commands ────────────────────────────────────────────────────────────────

/// The sources that can be collected.
pub open spec fn is_collect_source(source: Seq<char>) -> bool {
    source == "xhs"@ || source == "wechat"@ || source == "bili"@
}

/// `unsupported source: {source}` for an unknown source.
pub fn validate_collect_source(source: &str) -> (r: Result<(), BackendError>)
    ensures
        r is Ok <==> is_collect_source(source@),
        r matches Err(e) ==> e is Validation && e.detail() == "unsupported source: "@ + source@,
{
    if crate::text::str_eq(source, "xhs") || crate::text::str_eq(source, "wechat")
        || crate::text::str_eq(source, "bili") {
        Ok(())
    } else {
        let mut m = crate::text::str_to_string("unsupported source: ");
        m.append(source);
        Err(BackendError::Validation(m))
    }
}

/// The daily job queues four tasks, or three when the daily report is off.
pub fn daily_job_task_count(daily_report_enabled: bool) -> (r: u32)
    ensures
        r == if daily_report_enabled {
            4u32
        } else {
            3u32
        },
{
    if daily_report_enabled {
        4
    } else {
        3
    }
}

/// `page and page_size must be positive`.
pub open spec fn page_message() -> Seq<char> {
    "page and page_size must be positive"@
}

/// A page's size and offset, for a page numbered from one.
pub fn page_bounds(page: &PageReq) -> (r: Result<(i64, i64), BackendError>)
    requires
        page.page >= 1 ==> (page.page - 1) * page.page_size <= u32::MAX,
    ensures
        page.page == 0 || page.page_size == 0 ==> (r matches Err(e) && e is Validation
            && e.detail() == page_message()),
        page.page > 0 && page.page_size > 0 ==> r == Ok::<(i64, i64), BackendError>(
            (page.page_size as i64, ((page.page - 1) * page.page_size) as i64),
        ),
{
    if page.page == 0 || page.page_size == 0 {
        return Err(
            BackendError::Validation(
                crate::text::str_to_string("page and page_size must be positive"),
            ),
        );
    }
    let page_size = page.page_size as i64;
    let offset = ((page.page - 1) * page.page_size) as i64;
    Ok((page_size, offset))
}

/// A log query needs a positive page and both ends of its date range.
pub fn validate_log_query(range: &DateRange, page: &PageReq) -> (r: Result<(), BackendError>)
    ensures
        r is Ok <==> (page.page > 0 && page.page_size > 0 && trim(range.from@).len() > 0 && trim(
            range.to@,
        ).len() > 0),
        r matches Err(e) ==> e is Validation,
{
    if page.page == 0 || page.page_size == 0 {
        return Err(
            BackendError::Validation(
                crate::text::str_to_string("page and page_size must be positive"),
            ),
        );
    }
    if trim_chars(&chars_of(range.from.as_str())).len() == 0 || trim_chars(
        &chars_of(range.to.as_str()),
    ).len() == 0 {
        return Err(
            BackendError::Validation(
                crate::text::str_to_string("range.from and range.to must not be empty"),
            ),
        );
    }
    Ok(())
}

/// How a dead letter is replayed.
#[derive(Debug, Clone, Copy, PartialEq, Eq, Structural)]
pub enum ReplayRoute {
    /// The letter is no longer open: counted as ignored and left as it is.
    Closed,
    /// An open letter of a kind that cannot be replayed: counted as ignored,
    /// and the attempt is recorded on it.
    Ignore,
    /// A Notion sync record is put back into retry.
    SyncRecord,
    /// A pipeline input is run through the pipeline again.
    Pipeline,
}

pub open spec fn replay_route(entity_type: Seq<char>, stage: Seq<char>, state: Seq<char>) -> ReplayRoute {
    if state != "open"@ {
        ReplayRoute::Closed
    } else if entity_type == "sync_record"@ && (stage == "notion_sync"@ || stage
        == "notion_sync_page_tree"@) {
        ReplayRoute::SyncRecord
    } else if entity_type == "pipeline"@ && (stage == "wechat_import_parse"@ || stage
        == "wechat_persist"@ || stage == "pipeline_execute"@) {
        ReplayRoute::Pipeline
    } else {
        ReplayRoute::Ignore
    }
}

pub fn dead_letter_replay_route(entity_type: &str, stage: &str, state: &str) -> (r: ReplayRoute)
    ensures
        r == replay_route(entity_type@, stage@, state@),
{
    if !str_eq(state, "open") {
        ReplayRoute::Closed
    } else if str_eq(entity_type, "sync_record") && (str_eq(stage, "notion_sync") || str_eq(
        stage,
        "notion_sync_page_tree",
    )) {
        ReplayRoute::SyncRecord
    } else if str_eq(entity_type, "pipeline") && (str_eq(stage, "wechat_import_parse") || str_eq(
        stage,
        "wechat_persist",
    ) || str_eq(stage, "pipeline_execute")) {
        ReplayRoute::Pipeline
    } else {
        ReplayRoute::Ignore
    }
}

} // verus!
