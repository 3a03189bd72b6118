//! The figures of the dashboard and the analytics pages, and the tally of a
//! dead-letter replay.

use vstd::prelude::*;
use crate::app_core::{
    CollectionInsight, CollectionRecentItem, CollectionSourceBreakdown, DateRange, RetryResult,
};
use crate::error::BackendError;
use crate::text::{byte_prefix, byte_prefix_exec, chars_of, is_boundary, str_eq, string_of};

verus! {

/// The sum of the counts of the rows whose state satisfies `pred`.
pub open spec fn sum_where(rows: Seq<(String, u32)>, pred: spec_fn(Seq<char>) -> bool) -> nat
    decreases rows.len(),
{
    if rows.len() == 0 {
        0
    } else {
        sum_where(rows.drop_last(), pred) + if pred(rows.last().0@) {
            rows.last().1 as nat
        } else {
            0nat
        }
    }
}

/// The sum of all counts.
pub open spec fn sum_all(rows: Seq<(String, u32)>) -> nat {
    sum_where(rows, |s: Seq<char>| true)
}

pub proof fn lemma_sum_where_bound(rows: Seq<(String, u32)>, pred: spec_fn(Seq<char>) -> bool)
    ensures
        sum_where(rows, pred) <= sum_all(rows),
    decreases rows.len(),
{
    if rows.len() > 0 {
        lemma_sum_where_bound(rows.drop_last(), pred);
    }
}

pub open spec fn is_review_waiting(s: Seq<char>) -> bool {
    s == "pending"@ || s == "processing"@
}

pub open spec fn is_review_other(s: Seq<char>) -> bool {
    !is_review_waiting(s) && s != "done"@ && s != "rejected"@
}

/// The states that count as one figure.
pub open spec fn state_is(name: Seq<char>) -> spec_fn(Seq<char>) -> bool {
    |s: Seq<char>| s == name
}

pub open spec fn review_waiting() -> spec_fn(Seq<char>) -> bool {
    |s: Seq<char>| is_review_waiting(s)
}

pub open spec fn review_other() -> spec_fn(Seq<char>) -> bool {
    |s: Seq<char>| is_review_other(s)
}

pub open spec fn sync_other() -> spec_fn(Seq<char>) -> bool {
    |s: Seq<char>| is_sync_other(s)
}

proof fn lemma_state_names()
    ensures
        "pending"@ != "processing"@,
        "pending"@ != "done"@,
        "pending"@ != "rejected"@,
        "processing"@ != "done"@,
        "processing"@ != "rejected"@,
        "done"@ != "rejected"@,
        "pending"@ != "success"@,
        "pending"@ != "failed"@,
        "pending"@ != "retry"@,
        "success"@ != "failed"@,
        "success"@ != "retry"@,
        "failed"@ != "retry"@,
{
    reveal_strlit("pending");
    reveal_strlit("processing");
    reveal_strlit("done");
    reveal_strlit("rejected");
    reveal_strlit("success");
    reveal_strlit("failed");
    reveal_strlit("retry");
    assert("pending"@.len() == 7 && "pending"@[0] == 'p');
    assert("processing"@.len() == 10);
    assert("done"@.len() == 4);
    assert("rejected"@.len() == 8);
    assert("success"@.len() == 7 && "success"@[0] == 's');
    assert("failed"@.len() == 6);
    assert("retry"@.len() == 5);
}

/// Today's items by the state of their latest review.
#[derive(Debug, Clone)]
pub struct ReviewTally {
    pub pending: u32,
    pub done: u32,
    pub rejected: u32,
    pub direct_no_review: u32,
}

/// Adds up the items per review state: waiting (`pending` or
/// `processing`), `done`, `rejected`, and the rest, which never entered
/// review.
pub fn tally_review_states(rows: &Vec<(String, u32)>) -> (r: ReviewTally)
    requires
        sum_all(rows@) <= u32::MAX,
    ensures
        r.pending == sum_where(rows@, review_waiting()),
        r.done == sum_where(rows@, state_is("done"@)),
        r.rejected == sum_where(rows@, state_is("rejected"@)),
        r.direct_no_review == sum_where(rows@, review_other()),
{
    let mut t = ReviewTally { pending: 0, done: 0, rejected: 0, direct_no_review: 0 };
    let mut i: usize = 0;
    while i < rows.len()
        invariant
            i <= rows.len(),
            sum_all(rows@) <= u32::MAX,
            t.pending == sum_where(rows@.take(i as int), review_waiting()),
            t.done == sum_where(rows@.take(i as int), state_is("done"@)),
            t.rejected == sum_where(rows@.take(i as int), state_is("rejected"@)),
            t.direct_no_review == sum_where(rows@.take(i as int), review_other()),
        decreases rows.len() - i,
    {
        let ghost next = rows@.take(i + 1);
        proof {
            assert(next.drop_last() =~= rows@.take(i as int));
            assert(next.last() == rows@[i as int]);
            lemma_sum_where_bound(next, review_waiting());
            lemma_sum_where_bound(next, state_is("done"@));
            lemma_sum_where_bound(next, state_is("rejected"@));
            lemma_sum_where_bound(next, review_other());
            lemma_sum_prefix(rows@, i + 1);
            lemma_state_names();
            let e = rows@[i as int];
            assert(sum_where(next, review_waiting()) == sum_where(rows@.take(i as int), review_waiting()) + if review_waiting()(e.0@) {
                e.1 as nat
            } else {
                0nat
            });
            assert(sum_where(next, state_is("done"@)) == sum_where(rows@.take(i as int), state_is("done"@)) + if state_is("done"@)(e.0@) {
                e.1 as nat
            } else {
                0nat
            });
            assert(sum_where(next, state_is("rejected"@)) == sum_where(rows@.take(i as int), state_is("rejected"@)) + if state_is("rejected"@)(e.0@) {
                e.1 as nat
            } else {
                0nat
            });
            assert(sum_where(next, review_other()) == sum_where(rows@.take(i as int), review_other()) + if review_other()(e.0@) {
                e.1 as nat
            } else {
                0nat
            });
        }
        let state = &rows[i].0;
        let count = rows[i].1;
        if str_eq(state.as_str(), "pending") || str_eq(state.as_str(), "processing") {
            t.pending = t.pending + count;
        } else if str_eq(state.as_str(), "done") {
            t.done = t.done + count;
        } else if str_eq(state.as_str(), "rejected") {
            t.rejected = t.rejected + count;
        } else {
            t.direct_no_review = t.direct_no_review + count;
        }
        i = i + 1;
    }
    proof {
        assert(rows@.take(rows.len() as int) =~= rows@);
    }
    t
}

/// The sum over a prefix is at most the sum over the whole.
pub proof fn lemma_sum_prefix(rows: Seq<(String, u32)>, n: int)
    requires
        0 <= n <= rows.len(),
    ensures
        sum_all(rows.take(n)) <= sum_all(rows),
    decreases rows.len() - n,
{
    if n < rows.len() {
        lemma_sum_prefix(rows, n + 1);
        assert(rows.take(n + 1).drop_last() =~= rows.take(n));
    } else {
        assert(rows.take(n) =~= rows);
    }
}

/// Today's items by the state of their Notion sync.
#[derive(Debug, Clone)]
pub struct SyncTally {
    pub pending: u32,
    pub success: u32,
    pub failed: u32,
    pub retry: u32,
    pub not_started: u32,
}

pub open spec fn is_sync_other(s: Seq<char>) -> bool {
    s != "pending"@ && s != "success"@ && s != "failed"@ && s != "retry"@
}

/// Adds up the items per sync state; any other state counts as not
/// started.
pub fn tally_sync_states(rows: &Vec<(String, u32)>) -> (r: SyncTally)
    requires
        sum_all(rows@) <= u32::MAX,
    ensures
        r.pending == sum_where(rows@, state_is("pending"@)),
        r.success == sum_where(rows@, state_is("success"@)),
        r.failed == sum_where(rows@, state_is("failed"@)),
        r.retry == sum_where(rows@, state_is("retry"@)),
        r.not_started == sum_where(rows@, sync_other()),
{
    let mut t = SyncTally { pending: 0, success: 0, failed: 0, retry: 0, not_started: 0 };
    let mut i: usize = 0;
    while i < rows.len()
        invariant
            i <= rows.len(),
            sum_all(rows@) <= u32::MAX,
            t.pending == sum_where(rows@.take(i as int), state_is("pending"@)),
            t.success == sum_where(rows@.take(i as int), state_is("success"@)),
            t.failed == sum_where(rows@.take(i as int), state_is("failed"@)),
            t.retry == sum_where(rows@.take(i as int), state_is("retry"@)),
            t.not_started == sum_where(rows@.take(i as int), sync_other()),
        decreases rows.len() - i,
    {
        let ghost next = rows@.take(i + 1);
        proof {
            assert(next.drop_last() =~= rows@.take(i as int));
            assert(next.last() == rows@[i as int]);
            lemma_sum_where_bound(next, state_is("pending"@));
            lemma_sum_where_bound(next, state_is("success"@));
            lemma_sum_where_bound(next, state_is("failed"@));
            lemma_sum_where_bound(next, state_is("retry"@));
            lemma_sum_where_bound(next, sync_other());
            lemma_sum_prefix(rows@, i + 1);
            lemma_state_names();
            let e = rows@[i as int];
            assert(sum_where(next, state_is("pending"@)) == sum_where(rows@.take(i as int), state_is("pending"@)) + if state_is("pending"@)(e.0@) {
                e.1 as nat
            } else {
                0nat
            });
            assert(sum_where(next, state_is("success"@)) == sum_where(rows@.take(i as int), state_is("success"@)) + if state_is("success"@)(e.0@) {
                e.1 as nat
            } else {
                0nat
            });
            assert(sum_where(next, state_is("failed"@)) == sum_where(rows@.take(i as int), state_is("failed"@)) + if state_is("failed"@)(e.0@) {
                e.1 as nat
            } else {
                0nat
            });
            assert(sum_where(next, state_is("retry"@)) == sum_where(rows@.take(i as int), state_is("retry"@)) + if state_is("retry"@)(e.0@) {
                e.1 as nat
            } else {
                0nat
            });
            assert(sum_where(next, sync_other()) == sum_where(rows@.take(i as int), sync_other()) + if sync_other()(e.0@) {
                e.1 as nat
            } else {
                0nat
            });
        }
        let (state, count) = (&rows[i].0, rows[i].1);
        if str_eq(state.as_str(), "pending") {
            t.pending = t.pending + count;
        } else if str_eq(state.as_str(), "success") {
            t.success = t.success + count;
        } else if str_eq(state.as_str(), "failed") {
            t.failed = t.failed + count;
        } else if str_eq(state.as_str(), "retry") {
            t.retry = t.retry + count;
        } else {
            t.not_started = t.not_started + count;
        }
        i = i + 1;
    }
    proof {
        assert(rows@.take(rows.len() as int) =~= rows@);
    }
    t
}

/// The collection overview of `day`; a negative item count reads as none.
pub fn collection_insight(
    day: String,
    today_total: i64,
    sources: Vec<CollectionSourceBreakdown>,
    review: &ReviewTally,
    sync: &SyncTally,
    recent_items: Vec<CollectionRecentItem>,
) -> (r: CollectionInsight)
    ensures
        r.day == day,
        r.today_total == (if today_total < 0 {
            0
        } else {
            today_total as u32
        }),
        r.sources == sources,
        r.review_pending == review.pending,
        r.review_done == review.done,
        r.review_rejected == review.rejected,
        r.direct_no_review == review.direct_no_review,
        r.sync_pending == sync.pending,
        r.sync_success == sync.success,
        r.sync_failed == sync.failed,
        r.sync_retry == sync.retry,
        r.sync_not_started == sync.not_started,
        r.recent_items == recent_items,
{
    CollectionInsight {
        day,
        today_total: if today_total < 0 {
            0
        } else {
            today_total as u32
        },
        sources,
        review_pending: review.pending,
        review_done: review.done,
        review_rejected: review.rejected,
        direct_no_review: review.direct_no_review,
        sync_pending: sync.pending,
        sync_success: sync.success,
        sync_failed: sync.failed,
        sync_retry: sync.retry,
        sync_not_started: sync.not_started,
        recent_items,
    }
}

/// The days a daily-statistics query covers: the first ten bytes of each
/// end of the range, which must be whole characters.
pub fn stats_day_bounds(range: &DateRange) -> (r: Result<(String, String), BackendError>)
    ensures
        !is_boundary(range.from@, 10) ==> (r matches Err(BackendError::Validation(m)) && m@
            == "range.from invalid format"@),
        is_boundary(range.from@, 10) && !is_boundary(range.to@, 10) ==> (r matches Err(
            BackendError::Validation(m),
        ) && m@ == "range.to invalid format"@),
        is_boundary(range.from@, 10) && is_boundary(range.to@, 10) ==> (r matches Ok((f, t)) && f@
            == byte_prefix(range.from@, 10) && t@ == byte_prefix(range.to@, 10)),
{
    let from = match byte_prefix_exec(&chars_of(range.from.as_str()), 10) {
        Some(f) => f,
        None => {
            return Err(BackendError::Validation(crate::text::str_to_string("range.from invalid format")));
        },
    };
    let to = match byte_prefix_exec(&chars_of(range.to.as_str()), 10) {
        Some(t) => t,
        None => {
            return Err(BackendError::Validation(crate::text::str_to_string("range.to invalid format")));
        },
    };
    Ok((string_of(&from), string_of(&to)))
}

/// The number of sync log entries: the sync records and the sync job runs
/// in the range (none when the sum is negative).
pub fn sync_log_total(total_sync: i64, total_smoke: i64) -> (r: u64)
    requires
        i64::MIN <= total_sync + total_smoke <= i64::MAX,
    ensures
        r == (if total_sync + total_smoke < 0 {
            0
        } else {
            total_sync + total_smoke
        }),
{
    let t = total_sync + total_smoke;
    if t < 0 {
        0
    } else {
        t as u64
    }
}

// ── Dead-letter replay ──────────────────────────────────────────────────────

/// A replay that has handled nothing yet, for `requested` letters.
pub fn replay_start(requested: u32) -> (r: RetryResult)
    ensures
        r.requested == requested,
        r.requeued == 0,
        r.ignored == 0,
{
    RetryResult { requested, requeued: 0, ignored: 0 }
}

/// One handled letter, from `before` to `after`: requeued when it was
/// resolved, ignored otherwise; the number requested stays.
pub open spec fn replay_step(before: RetryResult, after: RetryResult, resolved: bool) -> bool {
    &&& after.requested == before.requested
    &&& after.requeued == before.requeued + (if resolved { 1int } else { 0int })
    &&& after.ignored == before.ignored + (if resolved { 0int } else { 1int })
}

/// The number of resolved letters among `flags`.
pub open spec fn resolved_count(flags: Seq<bool>) -> nat
    decreases flags.len(),
{
    if flags.len() == 0 {
        0
    } else {
        resolved_count(flags.drop_last()) + (if flags.last() { 1nat } else { 0nat })
    }
}

/// Counts one handled letter: requeued when it was resolved, ignored
/// otherwise.
pub fn record_replay(tally: &mut RetryResult, resolved: bool)
    requires
        old(tally).requeued + old(tally).ignored < old(tally).requested,
    ensures
        replay_step(*old(tally), *final(tally), resolved),
        final(tally).requested == old(tally).requested,
        final(tally).requeued == old(tally).requeued + (if resolved {
            1int
        } else {
            0int
        }),
        final(tally).ignored == old(tally).ignored + (if resolved {
            0int
        } else {
            1int
        }),
        final(tally).requeued + final(tally).ignored == old(tally).requeued + old(tally).ignored
            + 1,
{
    if resolved {
        tally.requeued = tally.requeued + 1;
    } else {
        tally.ignored = tally.ignored + 1;
    }
}

/// The tallies of a replay up to its `k`-th letter.
proof fn lemma_replay_prefix(tallies: Seq<RetryResult>, flags: Seq<bool>, k: int)
    requires
        tallies.len() == flags.len() + 1,
        tallies[0].requested == flags.len(),
        tallies[0].requeued == 0,
        tallies[0].ignored == 0,
        forall|j: int| 0 <= j < flags.len() ==> replay_step(#[trigger] tallies[j], tallies[j + 1], flags[j]),
        0 <= k <= flags.len(),
    ensures
        tallies[k].requested == flags.len(),
        tallies[k].requeued == resolved_count(flags.take(k)),
        tallies[k].requeued + tallies[k].ignored == k,
    decreases k,
{
    if k > 0 {
        lemma_replay_prefix(tallies, flags, k - 1);
        assert(replay_step(tallies[k - 1], tallies[k], flags[k - 1]));
        assert(flags.take(k).drop_last() =~= flags.take(k - 1));
    }
}

/// A whole replay accounts for every letter: starting from nothing handled
/// for `flags.len()` letters and counting each letter once, in order, the
/// tally ends with as many requeued as letters were resolved, and requeued
/// plus ignored equal to the number requested.
pub proof fn law_replay_accounts_for_every_letter(tallies: Seq<RetryResult>, flags: Seq<bool>)
    requires
        tallies.len() == flags.len() + 1,
        tallies[0].requested == flags.len(),
        tallies[0].requeued == 0,
        tallies[0].ignored == 0,
        forall|j: int| 0 <= j < flags.len() ==> replay_step(#[trigger] tallies[j], tallies[j + 1], flags[j]),
    ensures
        tallies.last().requested == flags.len(),
        tallies.last().requeued == resolved_count(flags),
        tallies.last().requeued + tallies.last().ignored == tallies.last().requested,
{
    lemma_replay_prefix(tallies, flags, flags.len() as int);
    assert(flags.take(flags.len() as int) =~= flags);
}

/// The review figures of a day add up to its items: every row's count goes
/// to exactly one of waiting, done, rejected and never reviewed.
pub proof fn law_review_tally_partitions(rows: Seq<(String, u32)>)
    ensures
        sum_where(rows, review_waiting()) + sum_where(rows, state_is("done"@)) + sum_where(
            rows,
            state_is("rejected"@),
        ) + sum_where(rows, review_other()) == sum_all(rows),
    decreases rows.len(),
{
    if rows.len() > 0 {
        law_review_tally_partitions(rows.drop_last());
        lemma_state_names();
    }
}

/// The sync figures of a day add up to its items: every row's count goes to
/// exactly one of pending, success, failed, retry and not started.
pub proof fn law_sync_tally_partitions(rows: Seq<(String, u32)>)
    ensures
        sum_where(rows, state_is("pending"@)) + sum_where(rows, state_is("success"@)) + sum_where(
            rows,
            state_is("failed"@),
        ) + sum_where(rows, state_is("retry"@)) + sum_where(rows, sync_other()) == sum_all(rows),
    decreases rows.len(),
{
    if rows.len() > 0 {
        law_sync_tally_partitions(rows.drop_last());
        lemma_state_names();
    }
}

} // verus!
