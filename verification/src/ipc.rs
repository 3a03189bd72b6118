//! The command layer's records and the rules it applies before and after the
//! work it hands to the database and to Notion: clamping of limits, request
//! validation, job-run and audit outcomes, and the local tool probe.

use vstd::prelude::*;
use crate::app_core::{opt_view, DateRange, PageReq, Paged, ReviewPatch};
use crate::sync_notion::service::{growth_limit_of, resolve_category_growth_limit, validate_timezone};
use crate::sync_notion::tree::{invalid_timezone_message, zone_iso_week};
use crate::error::BackendError;
use crate::sync_notion::service::SyncRunSummary;
use crate::text::{
    chars_eq, chars_of, concat, is_whitespace, lit, string_of, trim, trim_chars, trim_str,
};

verus! {

// ── Requests and responses ──────────────────────────────────────────────────

#[derive(Debug, Clone)]
pub struct ImportWechatFilesReq {
    pub paths: Vec<String>,
}

#[derive(Debug, Clone)]
pub struct CollectReq {
    pub source: String,
    pub since: Option<String>,
    pub until: Option<String>,
}

#[derive(Debug, Clone)]
pub struct UpdateReviewItemReq {
    pub id: String,
    pub patch: ReviewPatch,
}

#[derive(Debug, Clone)]
pub struct RetryFailedItemsReq {
    pub ids: Vec<String>,
}

#[derive(Debug, Clone)]
pub struct GetSyncLogsReq {
    pub range: DateRange,
    pub page: PageReq,
}

#[derive(Debug, Clone)]
pub struct GetSyncDailyStatsReq {
    pub range: DateRange,
    pub page: PageReq,
    pub job_type: Option<String>,
    pub status: Option<String>,
}

#[derive(Debug, Clone)]
pub struct GetAiUsageMonthlyReq {
    pub month: Option<String>,
}

#[derive(Debug, Clone)]
pub struct RunNotionSyncReq {
    pub limit: Option<usize>,
}

#[derive(Debug, Clone)]
pub struct GetIngestQueueReq {
    pub page: PageReq,
}

#[derive(Debug, Clone)]
pub struct PublishApprovedReq {
    pub limit: Option<usize>,
}

#[derive(Debug, Clone)]
pub struct GetPublishQueueReq {
    pub page: PageReq,
}

#[derive(Debug, Clone)]
pub struct GetPublishHistoryReq {
    pub range: DateRange,
    pub page: PageReq,
    pub state: Option<String>,
    pub sync_mode: Option<String>,
    pub retryable: Option<bool>,
}

#[derive(Debug, Clone)]
pub struct PublishHistoryFilters {
    pub state: Option<String>,
    pub sync_mode: Option<String>,
    pub retryable: Option<bool>,
}

impl Default for PublishHistoryFilters {
    fn default() -> (r: Self)
        ensures
            r.state.is_none(),
            r.sync_mode.is_none(),
            r.retryable.is_none(),
    {
        PublishHistoryFilters { state: None, sync_mode: None, retryable: None }
    }
}

#[derive(Debug, Clone)]
pub struct MarkSourceInactiveReq {
    pub item_id: String,
}

/// Whether the local text-extraction tools can be run.
#[derive(Debug, Clone)]
pub struct LocalToolStatus {
    pub textutil: bool,
    pub pdftotext: bool,
}

#[derive(Debug, Clone)]
pub struct IngestQueueItem {
    pub source_item_id: String,
    pub source: String,
    pub title: String,
    pub collected_at: String,
    pub review_state: String,
    pub publish_state: String,
}

#[derive(Debug, Clone)]
pub struct PublishTaskItem {
    pub id: String,
    pub item_id: String,
    pub title: String,
    pub state: String,
    pub attempt_count: u32,
    pub next_retry_at: Option<String>,
    pub error_code: Option<String>,
    pub updated_at: String,
}

#[derive(Debug, Clone)]
pub struct PublishResult {
    pub request_id: String,
    pub attempted: u32,
    pub succeeded: u32,
    pub failed: u32,
    pub requeued: u32,
    pub dead_lettered: u32,
}

#[derive(Debug, Clone)]
pub struct SourceStateMarkResult {
    pub item_id: String,
    pub active_state: String,
    pub updated_at: String,
}

#[derive(Debug, Clone)]
pub struct NotionSyncConfigSnapshot {
    pub sync_mode: String,
    pub notion_token_configured: bool,
    pub notion_database_id_configured: bool,
    pub notion_root_page_id_configured: bool,
    pub timezone: String,
    pub category_growth_limit: i64,
}

/// The error half of a command's reply.
#[derive(Debug, Clone)]
pub struct ApiError {
    pub code: String,
    pub message: String,
    pub retryable: bool,
}

/// The envelope of a command's reply.
#[derive(Debug, Clone)]
pub struct ApiResponse<T> {
    pub ok: bool,
    pub request_id: String,
    pub data: Option<T>,
    pub error: Option<ApiError>,
}

impl ApiError {
    /// The reply error of a library error: its code, its display text and
    /// whether trying again may help.
    pub fn from_backend(err: &BackendError) -> (r: ApiError)
        ensures
            r.code@ == err.spec_code().code_text(),
            r.message@ == err.display(),
            r.retryable == err.spec_code().is_retryable(),
    {
        ApiError {
            code: crate::text::str_to_string(err.code().as_str()),
            message: err.message(),
            retryable: err.retryable(),
        }
    }
}

impl<T> ApiResponse<T> {
    /// A successful reply carrying `data`.
    pub fn ok(request_id: String, data: T) -> (r: Self)
        ensures
            r.ok,
            r.request_id == request_id,
            r.data == Some(data),
            r.error.is_none(),
    {
        ApiResponse { ok: true, request_id, data: Some(data), error: None }
    }

    /// A failed reply carrying the error.
    pub fn err(request_id: String, error: ApiError) -> (r: Self)
        ensures
            !r.ok,
            r.request_id == request_id,
            r.data.is_none(),
            r.error == Some(error),
    {
        ApiResponse { ok: false, request_id, data: None, error: Some(error) }
    }
}

// ── Limits ──────────────────────────────────────────────────────────────────

/// The number of items a sync run takes: between 1 and 200.
pub open spec fn clamp_limit(input: int) -> int {
    if input < 1 {
        1
    } else if input > 200 {
        200
    } else {
        input
    }
}

pub fn sanitize_limit(input: usize) -> (r: usize)
    ensures
        r == clamp_limit(input as int),
{
    if input < 1 {
        1
    } else if input > 200 {
        200
    } else {
        input
    }
}

/// The pause between two synced items: between 0 and 5000 ms.
pub open spec fn clamp_sleep_ms(input: int) -> int {
    if input < 0 {
        0
    } else if input > 5000 {
        5000
    } else {
        input
    }
}

pub fn sanitize_sleep_ms(input: i64) -> (r: u64)
    ensures
        r == clamp_sleep_ms(input as int),
{
    if input < 0 {
        0
    } else if input > 5000 {
        5000
    } else {
        input as u64
    }
}

/// The limit a sync run asks for: the requested one, else the configured
/// default (none when it is not positive), clamped.
pub open spec fn sync_limit(requested: Option<usize>, configured: i64) -> int {
    let raw: int = match requested {
        Some(n) => n as int,
        None => if configured <= 0 {
            0
        } else {
            (configured as usize) as int
        },
    };
    clamp_limit(raw)
}

pub fn resolve_notion_sync_limit(requested: Option<usize>, configured: i64) -> (r: usize)
    ensures
        r == sync_limit(requested, configured),
{
    let raw = match requested {
        Some(n) => n,
        None => if configured <= 0 {
            0
        } else {
            configured as usize
        },
    };
    sanitize_limit(raw)
}

// ── Request validation ──────────────────────────────────────────────────────

/// A month written `YYYY-MM`.
pub open spec fn is_month_key(s: Seq<char>) -> bool {
    &&& s.len() == 7
    &&& forall|i: int|
        0 <= i < 7 ==> (if i == 4 {
            s[i] == '-'
        } else {
            '0' <= #[trigger] s[i] && s[i] <= '9'
        })
}

pub open spec fn month_key_result(raw: Option<String>, fallback: Seq<char>) -> Result<
    Seq<char>,
    (),
> {
    match raw {
        None => Ok(fallback),
        Some(v) => if trim(v@).len() == 0 {
            Ok(fallback)
        } else if is_month_key(trim(v@)) {
            Ok(trim(v@))
        } else {
            Err(())
        },
    }
}

/// The month a usage summary covers: the requested one (trimmed) when it is
/// given, else `current_month`; a requested month not written `YYYY-MM` is
/// refused.
pub fn normalize_month_key(raw: Option<String>, current_month: String) -> (r: Result<
    String,
    BackendError,
>)
    ensures
        match month_key_result(raw, current_month@) {
            Ok(m) => r matches Ok(s) && s@ == m,
            Err(_) => r matches Err(BackendError::Validation(msg)) && msg@
                == "month must be in YYYY-MM format"@,
        },
{
    let candidate = match raw {
        None => {
            return Ok(current_month);
        },
        Some(v) => trim_str(v.as_str()),
    };
    if candidate.len() == 0 {
        return Ok(current_month);
    }
    let mut valid = candidate.len() == 7;
    if valid {
        let mut i: usize = 0;
        while i < 7
            invariant
                candidate.len() == 7,
                i <= 7,
                valid == (forall|j: int|
                    0 <= j < i ==> (if j == 4 {
                        candidate@[j] == '-'
                    } else {
                        '0' <= #[trigger] candidate@[j] && candidate@[j] <= '9'
                    })),
            decreases 7 - i,
        {
            let c = candidate[i];
            let ok = if i == 4 {
                c == '-'
            } else {
                '0' <= c && c <= '9'
            };
            valid = valid && ok;
            i = i + 1;
        }
    }
    if !valid {
        return Err(BackendError::Validation(crate::text::str_to_string("month must be in YYYY-MM format")));
    }
    Ok(string_of(&candidate))
}

/// A history filter: trimmed, absent when nothing is left.
pub fn normalize_history_string_filter(raw: Option<String>) -> (r: Option<String>)
    ensures
        opt_view(r) == (match raw {
            Some(v) => if trim(v@).len() > 0 {
                Some(trim(v@))
            } else {
                None
            },
            None => None,
        }),
{
    match raw {
        None => None,
        Some(v) => {
            let t = trim_str(v.as_str());
            if t.len() == 0 {
                None
            } else {
                Some(string_of(&t))
            }
        },
    }
}

/// The error codes after which publishing may succeed when tried again.
pub open spec fn retryable_publish_code(code: Option<Seq<char>>) -> bool {
    match code {
        Some(c) => c == "MOD-3002"@ || c == "MOD-3429"@ || c == "DB-4001"@ || c == "INT-9000"@,
        None => false,
    }
}

pub fn is_retryable_publish_error_code(error_code: Option<&str>) -> (r: bool)
    ensures
        r == retryable_publish_code(
            match error_code {
                Some(c) => Some(c@),
                None => None,
            },
        ),
{
    match error_code {
        Some(c) => {
            let v = chars_of(c);
            chars_eq(&v, &lit("MOD-3002")) || chars_eq(&v, &lit("MOD-3429")) || chars_eq(
                &v,
                &lit("DB-4001"),
            ) || chars_eq(&v, &lit("INT-9000"))
        },
        None => false,
    }
}

// ── Sync runs ───────────────────────────────────────────────────────────────

/// The two ways of syncing to Notion.
#[derive(Debug, Clone, Copy, PartialEq, Eq, Structural)]
pub enum SyncModeKind {
    Database,
    PageTree,
}

pub open spec fn sync_mode_of(mode: Seq<char>) -> Option<SyncModeKind> {
    if mode == "database"@ {
        Some(SyncModeKind::Database)
    } else if mode == "page_tree"@ {
        Some(SyncModeKind::PageTree)
    } else {
        None
    }
}

/// The sync mode named `mode`; any other name is refused.
pub fn parse_sync_mode(mode: &str) -> (r: Result<SyncModeKind, BackendError>)
    ensures
        match sync_mode_of(mode@) {
            Some(k) => r == Ok::<SyncModeKind, BackendError>(k),
            None => r matches Err(BackendError::Validation(m)) && m@
                == "NOTION_SYNC_MODE must be 'page_tree' or 'database', got '"@ + mode@ + "'"@,
        },
{
    let v = chars_of(mode);
    if chars_eq(&v, &lit("database")) {
        Ok(SyncModeKind::Database)
    } else if chars_eq(&v, &lit("page_tree")) {
        Ok(SyncModeKind::PageTree)
    } else {
        let m = concat(
            &concat(&lit("NOTION_SYNC_MODE must be 'page_tree' or 'database', got '"), &v),
            &lit("'"),
        );
        Err(BackendError::Validation(string_of(&m)))
    }
}

/// How a run is recorded in the job-run table.
#[derive(Debug, Clone)]
pub struct JobRunOutcome {
    pub status: String,
    pub success_count: i64,
    pub fail_count: i64,
    pub error_code: Option<String>,
    pub error_message: Option<String>,
}

/// The status of a one-off sync run: `failed` when it ended in an error,
/// else `skipped` when nothing was attempted, `partial` when an item
/// failed, `success` otherwise.
pub open spec fn sync_job_status(summary: Option<&SyncRunSummary>, failed_run: bool) -> Seq<char> {
    if failed_run {
        "failed"@
    } else {
        match summary {
            Some(s) => if s.attempted == 0 {
                "skipped"@
            } else if s.failed > 0 {
                "partial"@
            } else {
                "success"@
            },
            None => "failed"@,
        }
    }
}

/// The job run of a one-off sync: a run that ended in an error counts one
/// failure under the error's code and text; otherwise the summary's
/// successes and failures are counted.
pub fn notion_sync_job_outcome(summary: Option<&SyncRunSummary>, run_error: Option<&BackendError>) -> (r:
    JobRunOutcome)
    ensures
        r.status@ == sync_job_status(summary, run_error.is_some()),
        r.success_count == (match summary {
            Some(s) => s.succeeded as int,
            None => 0,
        }),
        r.fail_count == (match run_error {
            Some(_) => 1,
            None => match summary {
                Some(s) => s.failed as int,
                None => 0,
            },
        }),
        opt_view(r.error_code) == (match run_error {
            Some(e) => Some(e.spec_code().code_text()),
            None => None,
        }),
        opt_view(r.error_message) == (match run_error {
            Some(e) => Some(e.display()),
            None => None,
        }),
{
    let status = if run_error.is_some() {
        "failed"
    } else {
        match summary {
            Some(s) => if s.attempted == 0 {
                "skipped"
            } else if s.failed > 0 {
                "partial"
            } else {
                "success"
            },
            None => "failed",
        }
    };
    let success_count: i64 = match summary {
        Some(s) => s.succeeded as i64,
        None => 0,
    };
    let fail_count: i64 = match run_error {
        Some(_) => 1,
        None => match summary {
            Some(s) => s.failed as i64,
            None => 0,
        },
    };
    let (error_code, error_message) = match run_error {
        Some(e) => (Some(crate::text::str_to_string(e.code().as_str())), Some(e.message())),
        None => (None, None),
    };
    JobRunOutcome {
        status: crate::text::str_to_string(status),
        success_count,
        fail_count,
        error_code,
        error_message,
    }
}

/// What a publish request reports: the counts of the sync run it started,
/// or zeros when there was nothing to publish.
pub fn publish_result(request_id: String, summary: Option<&SyncRunSummary>) -> (r: PublishResult)
    ensures
        r.request_id == request_id,
        match summary {
            Some(s) => r.attempted == s.attempted && r.succeeded == s.succeeded && r.failed
                == s.failed && r.requeued == s.requeued && r.dead_lettered == s.dead_lettered,
            None => r.attempted == 0 && r.succeeded == 0 && r.failed == 0 && r.requeued == 0
                && r.dead_lettered == 0,
        },
{
    match summary {
        Some(s) => PublishResult {
            request_id,
            attempted: s.attempted,
            succeeded: s.succeeded,
            failed: s.failed,
            requeued: s.requeued,
            dead_lettered: s.dead_lettered,
        },
        None => PublishResult {
            request_id,
            attempted: 0,
            succeeded: 0,
            failed: 0,
            requeued: 0,
            dead_lettered: 0,
        },
    }
}

// ── Publish audit ───────────────────────────────────────────────────────────

/// The error that failed a whole publish batch.
#[derive(Debug, Clone)]
pub struct BatchFailure {
    pub code: String,
    pub message: String,
    pub retryable: bool,
}

/// One row of the publish audit, without its ids and times.
#[derive(Debug, Clone)]
pub struct AuditEntry {
    pub status: String,
    pub error_code: Option<String>,
    pub error_message: Option<String>,
    pub retryable: bool,
}

/// The state a sync record's state is audited as.
pub open spec fn audit_status_of(sync_state: Seq<char>) -> Seq<char> {
    if sync_state == "success"@ {
        "success"@
    } else if sync_state == "retry"@ {
        "partial"@
    } else if sync_state == "failed"@ {
        "failed"@
    } else {
        "skipped"@
    }
}

fn audit_status_exec(sync_state: &str) -> (r: &'static str)
    ensures
        r@ == audit_status_of(sync_state@),
{
    let v = chars_of(sync_state);
    if chars_eq(&v, &lit("success")) {
        "success"
    } else if chars_eq(&v, &lit("retry")) {
        "partial"
    } else if chars_eq(&v, &lit("failed")) {
        "failed"
    } else {
        "skipped"
    }
}

fn copy_opt(o: &Option<String>) -> (r: Option<String>)
    ensures
        opt_view(r) == opt_view(*o),
{
    match o {
        Some(s) => Some(crate::text::str_to_string(s.as_str())),
        None => None,
    }
}

/// The audit row of a batch that had no candidates: `failed` with the
/// batch's error when there was one, `skipped` otherwise.
pub fn batch_audit_entry(failure: Option<&BatchFailure>) -> (r: AuditEntry)
    ensures
        match failure {
            Some(f) => r.status@ == "failed"@ && opt_view(r.error_code) == Some(f.code@)
                && opt_view(r.error_message) == Some(f.message@) && r.retryable == f.retryable,
            None => r.status@ == "skipped"@ && r.error_code.is_none() && r.error_message.is_none()
                && !r.retryable,
        },
{
    match failure {
        Some(f) => AuditEntry {
            status: crate::text::str_to_string("failed"),
            error_code: Some(crate::text::str_to_string(f.code.as_str())),
            error_message: Some(crate::text::str_to_string(f.message.as_str())),
            retryable: f.retryable,
        },
        None => AuditEntry {
            status: crate::text::str_to_string("skipped"),
            error_code: None,
            error_message: None,
            retryable: false,
        },
    }
}

/// The state, error code and error message of a candidate's sync record.
#[derive(Debug, Clone)]
pub struct SyncRecordState {
    pub sync_state: String,
    pub error_code: Option<String>,
    pub error_message: Option<String>,
}

/// The audit row of one candidate: the batch's error when the batch failed;
/// else what its sync record says (`success`, `partial` for a retry,
/// `failed`, `skipped` otherwise), retryable when it waits for a retry or
/// failed with a retryable code; `skipped` when it has no record.
pub fn candidate_audit_entry(failure: Option<&BatchFailure>, record: Option<&SyncRecordState>) -> (r:
    AuditEntry)
    ensures
        match failure {
            Some(f) => r.status@ == "failed"@ && opt_view(r.error_code) == Some(f.code@)
                && opt_view(r.error_message) == Some(f.message@) && r.retryable == f.retryable,
            None => match record {
                Some(rec) => r.status@ == audit_status_of(rec.sync_state@) && opt_view(r.error_code)
                    == opt_view(rec.error_code) && opt_view(r.error_message) == opt_view(
                    rec.error_message,
                ) && r.retryable == (rec.sync_state@ == "retry"@ || retryable_publish_code(
                    opt_view(rec.error_code),
                )),
                None => r.status@ == "skipped"@ && r.error_code.is_none()
                    && r.error_message.is_none() && !r.retryable,
            },
        },
{
    if failure.is_some() {
        return batch_audit_entry(failure);
    }
    match record {
        Some(rec) => {
            let retry = chars_eq(&chars_of(rec.sync_state.as_str()), &lit("retry"));
            let code_retryable = match &rec.error_code {
                Some(c) => is_retryable_publish_error_code(Some(c.as_str())),
                None => is_retryable_publish_error_code(None),
            };
            AuditEntry {
                status: crate::text::str_to_string(audit_status_exec(rec.sync_state.as_str())),
                error_code: copy_opt(&rec.error_code),
                error_message: copy_opt(&rec.error_message),
                retryable: retry || code_retryable,
            }
        },
        None => batch_audit_entry(None),
    }
}

/// Each candidate's share of the batch's latency, never negative.
pub fn per_item_latency(latency_ms: i64, candidates: usize) -> (r: i64)
    requires
        0 < candidates <= i64::MAX,
    ensures
        r == (if latency_ms <= 0 {
            0
        } else {
            latency_ms as int / candidates as int
        }),
{
    if latency_ms <= 0 {
        0
    } else {
        let n = candidates as i64;
        latency_ms / n
    }
}

// ── Configuration snapshot ──────────────────────────────────────────────────

/// The Notion sync settings as the client shows them. The time zone must be
/// one chrono-tz knows (checked on the week of `now_secs`); the growth limit
/// is 0 in the fixed first-level mode and may not be negative.
pub fn notion_sync_config_snapshot(
    sync_mode: String,
    timezone: String,
    now_secs: i64,
    configured_growth_limit: i64,
    fixed_first_level: bool,
    notion_token_configured: bool,
    notion_database_id_configured: bool,
    notion_root_page_id_configured: bool,
) -> (r: Result<NotionSyncConfigSnapshot, BackendError>)
    ensures
        zone_iso_week(now_secs as int, timezone@) is None ==> (r matches Err(
            BackendError::Validation(m),
        ) && m@ == invalid_timezone_message(timezone@)),
        zone_iso_week(now_secs as int, timezone@) is Some ==> match growth_limit_of(
            configured_growth_limit,
            fixed_first_level,
        ) {
            None => r matches Err(BackendError::Validation(m)) && m@
                == "NOTION_TREE_CATEGORY_GROWTH_LIMIT must be >= 0"@,
            Some(l) => r matches Ok(snap) && snap.sync_mode == sync_mode && snap.timezone
                == timezone && snap.category_growth_limit == l && snap.notion_token_configured
                == notion_token_configured && snap.notion_database_id_configured
                == notion_database_id_configured && snap.notion_root_page_id_configured
                == notion_root_page_id_configured,
        },
{
    validate_timezone(timezone.as_str(), now_secs)?;
    let category_growth_limit = resolve_category_growth_limit(
        configured_growth_limit,
        fixed_first_level,
    )?;
    Ok(
        NotionSyncConfigSnapshot {
            sync_mode,
            notion_token_configured,
            notion_database_id_configured,
            notion_root_page_id_configured,
            timezone,
            category_growth_limit,
        },
    )
}

// ── Source state ────────────────────────────────────────────────────────────

/// An item id to mark inactive must not be blank.
pub fn check_inactive_item_id(item_id: &str) -> (r: Result<(), BackendError>)
    ensures
        trim(item_id@).len() > 0 ==> r is Ok,
        trim(item_id@).len() == 0 ==> (r matches Err(BackendError::Validation(m)) && m@
            == "item_id must not be empty"@),
{
    if trim_str(item_id).len() == 0 {
        return Err(BackendError::Validation(crate::text::str_to_string("item_id must not be empty")));
    }
    Ok(())
}

/// The error for an item id that names no source item.
pub fn source_item_not_found(item_id: &str) -> (r: BackendError)
    ensures
        r matches BackendError::Validation(m) && m@ == "source item not found: "@ + item_id@,
{
    BackendError::Validation(
        string_of(&concat(&lit("source item not found: "), &chars_of(item_id))),
    )
}

/// The reply of a source marked inactive at `now`.
pub fn inactive_mark_result(item_id: String, now: String) -> (r: SourceStateMarkResult)
    ensures
        r.item_id == item_id,
        r.active_state@ == "inactive"@,
        r.updated_at == now,
{
    SourceStateMarkResult {
        item_id,
        active_state: crate::text::str_to_string("inactive"),
        updated_at: now,
    }
}

// ── Local tools ─────────────────────────────────────────────────────────────

/// What happened when a candidate of a tool was run.
#[derive(Debug, Clone)]
pub enum ProbeOutcome {
    /// It ran; whether it exited successfully and whether it wrote anything.
    Ran { success: bool, stdout_empty: bool, stderr_empty: bool },
    /// No such program.
    NotFound,
    /// It could not be started for another reason.
    Failed { message: String },
}

/// The programs tried for a tool, in order: its name, then its usual paths.
pub open spec fn probe_paths(cmd: Seq<char>) -> Seq<Seq<char>> {
    if cmd == "pdftotext"@ {
        seq![cmd, "/opt/homebrew/bin/pdftotext"@, "/usr/local/bin/pdftotext"@]
    } else if cmd == "textutil"@ {
        seq![cmd, "/usr/bin/textutil"@]
    } else {
        seq![cmd]
    }
}

pub fn probe_candidates(cmd: &str) -> (r: Vec<String>)
    ensures
        crate::text::string_views(r@) == probe_paths(cmd@),
{
    let mut r: Vec<String> = Vec::new();
    r.push(crate::text::str_to_string(cmd));
    if crate::text::str_eq(cmd, "pdftotext") {
        r.push(crate::text::str_to_string("/opt/homebrew/bin/pdftotext"));
        r.push(crate::text::str_to_string("/usr/local/bin/pdftotext"));
    } else if crate::text::str_eq(cmd, "textutil") {
        r.push(crate::text::str_to_string("/usr/bin/textutil"));
    }
    proof {
        assert(crate::text::string_views(r@) =~= probe_paths(cmd@));
    }
    r
}

/// What one run of a candidate settles: a program that ran is available
/// when it succeeded or wrote anything; a missing program settles nothing
/// (the next candidate is tried); any other failure is an internal error.
pub fn probe_step(candidate: &str, outcome: &ProbeOutcome) -> (r: Option<Result<bool, BackendError>>)
    ensures
        match outcome {
            ProbeOutcome::Ran { success, stdout_empty, stderr_empty } => r == Some(
                Ok::<bool, BackendError>(*success || !*stdout_empty || !*stderr_empty),
            ),
            ProbeOutcome::NotFound => r is None,
            ProbeOutcome::Failed { message } => r matches Some(Err(BackendError::Internal(m)))
                && m@ == "local tool probe failed for "@ + candidate@ + ": "@ + message@,
        },
{
    match outcome {
        ProbeOutcome::Ran { success, stdout_empty, stderr_empty } => Some(
            Ok(*success || !*stdout_empty || !*stderr_empty),
        ),
        ProbeOutcome::NotFound => None,
        ProbeOutcome::Failed { message } => {
            let m = concat(
                &concat(&lit("local tool probe failed for "), &chars_of(candidate)),
                &concat(&lit(": "), &chars_of(message.as_str())),
            );
            Some(Err(BackendError::Internal(string_of(&m))))
        },
    }
}

// ── Queues and history ──────────────────────────────────────────────────────

/// A page of results; a negative count reads as none.
pub fn paged<T>(items: Vec<T>, page: &PageReq, total: i64) -> (r: Paged<T>)
    ensures
        r.items == items,
        r.page == page.page,
        r.page_size == page.page_size,
        r.total == (if total < 0 {
            0
        } else {
            total as int
        }),
{
    Paged {
        items,
        page: page.page,
        page_size: page.page_size,
        total: if total < 0 {
            0
        } else {
            total as u64
        },
    }
}

/// The title shown for a queued item without one.
pub fn queue_title(title: Option<String>) -> (r: String)
    ensures
        r@ == (match title {
            Some(t) => t@,
            None => "未命名内容"@,
        }),
{
    match title {
        Some(t) => t,
        None => crate::text::str_to_string("未命名内容"),
    }
}

/// A count read from the database, negative ones as zero, cast to `u32`
/// (`n.max(0) as u32`).
pub fn non_negative_count(n: i64) -> (r: u32)
    ensures
        r == (if n < 0 {
            0u32
        } else {
            n as u32
        }),
{
    if n < 0 {
        0
    } else {
        n as u32
    }
}

/// Where the publish history comes from.
#[derive(Debug, Clone, Copy, PartialEq, Eq, Structural)]
pub enum HistorySource {
    /// The publish audit, grouped by request.
    Audit,
    /// Nothing: the older job-run table cannot answer mode or retry filters.
    Empty,
    /// The older job-run table.
    JobRuns,
}

/// The publish history is read from the audit when it has entries in the
/// range; else from the job runs, unless a mode filter (a blank one counts
/// as none) or a retry filter is asked for, which they cannot answer.
pub open spec fn history_source_of(audit_groups: i64, filters: PublishHistoryFilters) -> HistorySource {
    if audit_groups > 0 {
        HistorySource::Audit
    } else if crate::app_core::optional_filter(opt_view(filters.sync_mode)) is Some
        || filters.retryable is Some {
        HistorySource::Empty
    } else {
        HistorySource::JobRuns
    }
}

pub fn history_source(audit_groups: i64, filters: &PublishHistoryFilters) -> (r: HistorySource)
    ensures
        r == history_source_of(audit_groups, *filters),
{
    let mode_given = match &filters.sync_mode {
        Some(m) => trim_str(m.as_str()).len() > 0,
        None => false,
    };
    if audit_groups > 0 {
        HistorySource::Audit
    } else if mode_given || filters.retryable.is_some() {
        HistorySource::Empty
    } else {
        HistorySource::JobRuns
    }
}

/// The history filters in the form the query takes: strings trimmed (blank
/// ones dropped), the retry flag as 1 or 0.
pub fn history_filters(filters: PublishHistoryFilters) -> (r: (Option<String>, Option<String>, Option<i64>))
    ensures
        opt_view(r.0) == crate::app_core::optional_filter(opt_view(filters.state)),
        opt_view(r.1) == crate::app_core::optional_filter(opt_view(filters.sync_mode)),
        r.2 == (match filters.retryable {
            Some(true) => Some(1i64),
            Some(false) => Some(0i64),
            None => None,
        }),
{
    let retryable = match filters.retryable {
        Some(true) => Some(1i64),
        Some(false) => Some(0i64),
        None => None,
    };
    (
        normalize_history_string_filter(filters.state),
        normalize_history_string_filter(filters.sync_mode),
        retryable,
    )
}

/// The range of a history query must have both ends.
pub fn check_history_range(range: &DateRange) -> (r: Result<(), BackendError>)
    ensures
        (trim(range.from@).len() > 0 && trim(range.to@).len() > 0) ==> r is Ok,
        !(trim(range.from@).len() > 0 && trim(range.to@).len() > 0) ==> (r matches Err(
            BackendError::Validation(m),
        ) && m@ == "range.from and range.to must not be empty"@),
{
    if trim_str(range.from.as_str()).len() == 0 || trim_str(range.to.as_str()).len() == 0 {
        return Err(
            BackendError::Validation(
                crate::text::str_to_string("range.from and range.to must not be empty"),
            ),
        );
    }
    Ok(())
}

} // verus!
