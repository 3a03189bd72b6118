//! Decisions of the sync runs: the run summary and what a failure leads to,
//! the budget gate of the model, text and list clean-up, and the rendering
//! of an item's blocks.

use vstd::prelude::*;
use crate::error::BackendError;
use crate::num::{fnv1a, hash_hex_chars, hex_string};
use crate::sync_notion::client::{backoff, RetryPolicy};
use crate::sync_notion::tree::{invalid_timezone_message, week_key_and_title, zone_iso_week};
use crate::text::{
    ascii_lower, ascii_lower_chars, chars_list, chars_of, collapse_chars, collapse_ws, concat,
    contains, contains_chars, copy_chars, join, lit, list_contains, push_lit, replace_char,
    replace_char_exec, string_of, string_views, strings_of, take_chars, take_prefix, trim,
    trim_chars, views, kept_trimmed, keep_trimmed, split_by, in_set, split_set,
};

verus! {

/// The counts of a sync run.
#[derive(Debug, Clone)]
pub struct SyncRunSummary {
    pub scanned: u32,
    pub attempted: u32,
    pub succeeded: u32,
    pub failed: u32,
    pub requeued: u32,
    pub dead_lettered: u32,
}

/// How one attempted item ended.
#[derive(Debug, Clone, Copy, PartialEq, Eq, Structural)]
pub enum SyncOutcome {
    Succeeded,
    Requeued,
    DeadLettered,
}

impl SyncRunSummary {
    /// Every attempt ended in exactly one way, and every failure was either
    /// requeued or dead-lettered.
    pub open spec fn consistent(&self) -> bool {
        &&& self.attempted == self.succeeded + self.failed
        &&& self.failed == self.requeued + self.dead_lettered
        &&& self.attempted <= self.scanned
    }

    /// A summary for `scanned` loaded items, none attempted yet.
    pub fn start(scanned: u32) -> (r: Self)
        ensures
            r.consistent(),
            r.scanned == scanned,
            r.attempted == 0,
    {
        SyncRunSummary {
            scanned,
            attempted: 0,
            succeeded: 0,
            failed: 0,
            requeued: 0,
            dead_lettered: 0,
        }
    }

    /// Counts one attempted item.
    pub fn record(&mut self, outcome: SyncOutcome)
        requires
            old(self).consistent(),
            old(self).attempted < old(self).scanned,
        ensures
            final(self).consistent(),
            final(self).scanned == old(self).scanned,
            final(self).attempted == old(self).attempted + 1,
            final(self).succeeded == old(self).succeeded + (if outcome == SyncOutcome::Succeeded {
                1int
            } else {
                0int
            }),
            final(self).requeued == old(self).requeued + (if outcome == SyncOutcome::Requeued {
                1int
            } else {
                0int
            }),
            final(self).dead_lettered == old(self).dead_lettered + (if outcome
                == SyncOutcome::DeadLettered {
                1int
            } else {
                0int
            }),
    {
        self.attempted = self.attempted + 1;
        match outcome {
            SyncOutcome::Succeeded => {
                self.succeeded = self.succeeded + 1;
            },
            SyncOutcome::Requeued => {
                self.failed = self.failed + 1;
                self.requeued = self.requeued + 1;
            },
            SyncOutcome::DeadLettered => {
                self.failed = self.failed + 1;
                self.dead_lettered = self.dead_lettered + 1;
            },
        }
    }
}

/// Whatever the outcomes, a summary that started consistent stays
/// consistent: attempts split into successes and failures, failures into
/// requeued and dead-lettered items.
pub proof fn law_summary_stays_consistent(s: SyncRunSummary, outcomes: Seq<SyncOutcome>)
    requires
        s.consistent(),
        s.attempted + outcomes.len() <= s.scanned,
    ensures
        summary_after(s, outcomes).consistent(),
        summary_after(s, outcomes).attempted == s.attempted + outcomes.len(),
        summary_after(s, outcomes).scanned == s.scanned,
    decreases outcomes.len(),
{
    if outcomes.len() > 0 {
        law_summary_stays_consistent(s, outcomes.drop_last());
        let p = summary_after(s, outcomes.drop_last());
        assert(p.attempted + 1 <= p.scanned);
        assert(p.succeeded + 1 <= u32::MAX && p.failed + 1 <= u32::MAX);
        assert(p.requeued + 1 <= u32::MAX && p.dead_lettered + 1 <= u32::MAX);
    }
}

/// The summary after counting `outcomes` in order.
pub open spec fn summary_after(s: SyncRunSummary, outcomes: Seq<SyncOutcome>) -> SyncRunSummary
    decreases outcomes.len(),
{
    if outcomes.len() == 0 {
        s
    } else {
        let p = summary_after(s, outcomes.drop_last());
        let o = outcomes.last();
        SyncRunSummary {
            scanned: p.scanned,
            attempted: (p.attempted + 1) as u32,
            succeeded: (p.succeeded + if o == SyncOutcome::Succeeded {
                1int
            } else {
                0int
            }) as u32,
            failed: (p.failed + if o == SyncOutcome::Succeeded {
                0int
            } else {
                1int
            }) as u32,
            requeued: (p.requeued + if o == SyncOutcome::Requeued {
                1int
            } else {
                0int
            }) as u32,
            dead_lettered: (p.dead_lettered + if o == SyncOutcome::DeadLettered {
                1int
            } else {
                0int
            }) as u32,
        }
    }
}

/// A run that counts one outcome for each of its loaded items ends with
/// every item attempted, and its figures add up: attempts split into
/// successes and failures, failures into requeued and dead-lettered items.
pub proof fn law_full_run_attempts_every_item(scanned: u32, outcomes: Seq<SyncOutcome>)
    requires
        outcomes.len() == scanned,
    ensures
        ({
            let start = SyncRunSummary {
                scanned,
                attempted: 0,
                succeeded: 0,
                failed: 0,
                requeued: 0,
                dead_lettered: 0,
            };
            let end = summary_after(start, outcomes);
            &&& end.scanned == scanned
            &&& end.attempted == scanned
            &&& end.succeeded + end.failed == end.attempted
            &&& end.requeued + end.dead_lettered == end.failed
        }),
{
    let start = SyncRunSummary {
        scanned,
        attempted: 0,
        succeeded: 0,
        failed: 0,
        requeued: 0,
        dead_lettered: 0,
    };
    law_summary_stays_consistent(start, outcomes);
}

/// A page-tree run needs the root page it builds under: a blank id is
/// refused with `NOTION_ROOT_PAGE_ID is required`.
pub fn check_root_page_id(root_page_id: &str) -> (r: Result<(), BackendError>)
    ensures
        r is Ok <==> trim(root_page_id@).len() > 0,
        r matches Err(e) ==> (e matches BackendError::Validation(m) && m@
            == "NOTION_ROOT_PAGE_ID is required"@),
{
    if trim_chars(&chars_of(root_page_id)).len() == 0 {
        return Err(BackendError::Validation(crate::text::str_to_string("NOTION_ROOT_PAGE_ID is required")));
    }
    Ok(())
}

// ── Failures ────────────────────────────────────────────────────────────────

/// What the run does with an item whose sync failed.
#[derive(Debug, Clone, PartialEq, Eq)]
pub enum FailureAction {
    /// Try again later, after `backoff_ms`.
    Retry { next_retry_count: u32, backoff_ms: u64 },
    /// Give up: record the failure under `code` and file a dead letter for
    /// `stage`.
    DeadLetter { next_retry_count: u32, stage: String, code: String },
}

/// The failure's code: rate limiting is `MOD-3429`, anything else `MOD-3002`.
pub open spec fn sync_error_code(err: BackendError) -> Seq<char> {
    let msg = ascii_lower(err.display());
    if contains(msg, "429"@) || contains(msg, "rate limit"@) || contains(msg, "rate_limited"@)
        || contains(msg, "too many requests"@) {
        "MOD-3429"@
    } else {
        "MOD-3002"@
    }
}

pub fn classify_sync_error_code(err: &BackendError) -> (r: &'static str)
    ensures
        r@ == sync_error_code(*err),
{
    let msg = ascii_lower_chars(&chars_of(err.message().as_str()));
    if contains_chars(&msg, &lit("429")) || contains_chars(&msg, &lit("rate limit"))
        || contains_chars(&msg, &lit("rate_limited")) || contains_chars(
        &msg,
        &lit("too many requests"),
    ) {
        "MOD-3429"
    } else {
        "MOD-3002"
    }
}

/// A failure of the content quality gate, which no retry can fix.
pub open spec fn is_quality_gate_failure(err: BackendError) -> bool {
    contains(ascii_lower(err.display()), "content quality gate failed"@)
}

pub fn is_quality_gate_error(err: &BackendError) -> (r: bool)
    ensures
        r == is_quality_gate_failure(*err),
{
    contains_chars(
        &ascii_lower_chars(&chars_of(err.message().as_str())),
        &lit("content quality gate failed"),
    )
}

/// The spec view of a failure action.
pub open spec fn action_view(a: FailureAction) -> (bool, u32, u64, Seq<char>, Seq<char>) {
    match a {
        FailureAction::Retry { next_retry_count, backoff_ms } => (
            true,
            next_retry_count,
            backoff_ms,
            Seq::empty(),
            Seq::empty(),
        ),
        FailureAction::DeadLetter { next_retry_count, stage, code } => (
            false,
            next_retry_count,
            0,
            stage@,
            code@,
        ),
    }
}

/// The decision for a failed item that was tried `retry_count` times: a
/// quality-gate failure (in the page-tree mode) is dead-lettered at once
/// under `MOD-3101`; otherwise the item is retried after the back-off while
/// attempts remain, and dead-lettered under its error code when they run out.
pub open spec fn failure_decision(
    retry_count: u32,
    max_attempts: u32,
    quality_gate: bool,
    code: Seq<char>,
    stage: Seq<char>,
) -> (bool, u32, u64, Seq<char>, Seq<char>) {
    let next = (retry_count + 1) as u32;
    if quality_gate {
        (false, next, 0, "notion_quality_gate"@, "MOD-3101"@)
    } else if next < max_attempts {
        (true, next, backoff(retry_count), Seq::empty(), Seq::empty())
    } else {
        (false, next, 0, stage, code)
    }
}

/// Decides what a failed sync leads to. `dead_letter_stage` names the stage
/// of the run (`notion_sync` or `notion_sync_page_tree`); `quality_gate_mode`
/// is set in the page-tree mode, where quality-gate failures are final.
pub fn decide_failure(
    policy: &RetryPolicy,
    retry_count: u32,
    err: &BackendError,
    quality_gate_mode: bool,
    dead_letter_stage: &str,
) -> (r: FailureAction)
    requires
        retry_count < u32::MAX,
    ensures
        action_view(r) == failure_decision(
            retry_count,
            policy.max_attempts,
            quality_gate_mode && is_quality_gate_failure(*err),
            sync_error_code(*err),
            dead_letter_stage@,
        ),
{
    let next = retry_count + 1;
    if quality_gate_mode && is_quality_gate_error(err) {
        return FailureAction::DeadLetter {
            next_retry_count: next,
            stage: crate::text::str_to_string("notion_quality_gate"),
            code: crate::text::str_to_string("MOD-3101"),
        };
    }
    let code = classify_sync_error_code(err);
    if next < policy.max_attempts {
        FailureAction::Retry { next_retry_count: next, backoff_ms: policy.backoff_ms(retry_count) }
    } else {
        FailureAction::DeadLetter {
            next_retry_count: next,
            stage: crate::text::str_to_string(dead_letter_stage),
            code: crate::text::str_to_string(code),
        }
    }
}

impl FailureAction {
    /// The outcome that the run summary counts for this action.
    pub fn outcome(&self) -> (r: SyncOutcome)
        ensures
            r == (if action_view(*self).0 {
                SyncOutcome::Requeued
            } else {
                SyncOutcome::DeadLettered
            }),
    {
        match self {
            FailureAction::Retry { .. } => SyncOutcome::Requeued,
            FailureAction::DeadLetter { .. } => SyncOutcome::DeadLettered,
        }
    }
}

/// A failed item is retried only while attempts remain, and never after a
/// quality-gate failure; each decision raises the attempt count by one.
pub proof fn law_retries_are_bounded(
    retry_count: u32,
    max_attempts: u32,
    quality_gate: bool,
    code: Seq<char>,
    stage: Seq<char>,
)
    requires
        retry_count < u32::MAX,
    ensures
        failure_decision(retry_count, max_attempts, quality_gate, code, stage).0 ==> (retry_count
            + 1 < max_attempts && !quality_gate),
        failure_decision(retry_count, max_attempts, quality_gate, code, stage).1 == retry_count
            + 1,
{
}

// ── Tree configuration ──────────────────────────────────────────────────────

/// The category growth limit in force: none in the fixed first-level mode,
/// else the configured one; a negative limit is refused.
pub open spec fn growth_limit_of(configured: i64, fixed_first_level: bool) -> Option<i64> {
    let limit = if fixed_first_level {
        0
    } else {
        configured
    };
    if limit < 0 {
        None
    } else {
        Some(limit)
    }
}

pub fn resolve_category_growth_limit(configured: i64, fixed_first_level: bool) -> (r: Result<
    i64,
    BackendError,
>)
    ensures
        match growth_limit_of(configured, fixed_first_level) {
            Some(l) => r == Ok::<i64, BackendError>(l),
            None => r matches Err(BackendError::Validation(m)) && m@
                == "NOTION_TREE_CATEGORY_GROWTH_LIMIT must be >= 0"@,
        },
{
    let limit = if fixed_first_level {
        0
    } else {
        configured
    };
    if limit < 0 {
        return Err(
            BackendError::Validation(
                crate::text::str_to_string("NOTION_TREE_CATEGORY_GROWTH_LIMIT must be >= 0"),
            ),
        );
    }
    Ok(limit)
}

/// The default categories of a `|`-separated list: trimmed, empty ones left
/// out.
pub open spec fn categories_of(raw: Seq<char>) -> Seq<Seq<char>> {
    kept_trimmed(split_by(raw, in_set(seq!['|'])))
}

pub fn parse_default_categories(raw: &str) -> (r: Vec<String>)
    ensures
        string_views(r@) == categories_of(raw@),
{
    let mut bar: Vec<char> = Vec::new();
    bar.push('|');
    proof {
        assert(bar@ =~= seq!['|']);
    }
    strings_of(&keep_trimmed(&split_set(&chars_of(raw), &bar)))
}

/// Refuses a time zone that chrono-tz does not know, as the week of the
/// instant `now_secs` shows.
pub fn validate_timezone(timezone: &str, now_secs: i64) -> (r: Result<(), BackendError>)
    ensures
        match zone_iso_week(now_secs as int, timezone@) {
            Some(_) => r is Ok,
            None => r matches Err(BackendError::Validation(m)) && m@ == invalid_timezone_message(
                timezone@,
            ),
        },
{
    match week_key_and_title(now_secs, timezone) {
        Ok(_) => Ok(()),
        Err(e) => Err(BackendError::Validation(e)),
    }
}

// ── Dead letters of a sync run ──────────────────────────────────────────────

/// The message filed with a dead letter of `stage` for the error `err`.
pub open spec fn dead_letter_text(stage: Seq<char>, err: BackendError) -> Seq<char> {
    if stage == "notion_quality_gate"@ {
        "quality gate failed: "@ + err.display()
    } else if stage == "notion_sync_page_tree"@ {
        "notion page_tree sync failed: "@ + err.display()
    } else {
        "notion sync failed: "@ + err.display()
    }
}

pub fn dead_letter_message(stage: &str, err: &BackendError) -> (r: String)
    ensures
        r@ == dead_letter_text(stage@, *err),
{
    let head = if crate::text::str_eq(stage, "notion_quality_gate") {
        lit("quality gate failed: ")
    } else if crate::text::str_eq(stage, "notion_sync_page_tree") {
        lit("notion page_tree sync failed: ")
    } else {
        lit("notion sync failed: ")
    };
    string_of(&concat(&head, &chars_of(err.message().as_str())))
}

/// The id of a sync record's dead letter: `dlq_sync_` and the hash of the
/// record, the stage, the code and the message.
pub fn sync_dead_letter_id(entity_id: &str, stage: &str, error_code: &str, error_message: &str) -> (r:
    String)
    ensures
        r@ == "dlq_sync_"@ + hex_string(
            fnv1a(
                vstd::utf8::encode_utf8(
                    entity_id@ + "|"@ + stage@ + "|"@ + error_code@ + "|"@ + error_message@,
                ),
            ) as nat,
        ),
{
    let bar = lit("|");
    let joined = concat(
        &concat(
            &concat(
                &concat(&concat(&concat(&chars_of(entity_id), &bar), &chars_of(stage)), &bar),
                &chars_of(error_code),
            ),
            &bar,
        ),
        &chars_of(error_message),
    );
    string_of(&concat(&lit("dlq_sync_"), &hash_hex_chars(&joined)))
}

} // verus!
