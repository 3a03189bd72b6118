//! The processing state machine of a pipeline item and its retry policy.

use vstd::prelude::*;

verus! {

#[derive(Debug, Clone, Copy, PartialEq, Eq, Structural)]
pub enum PipelineState {
    Queued,
    Processing,
    Succeeded,
    RetryWait,
    Failed,
}

#[derive(Debug, Clone, Copy, PartialEq, Eq, Structural)]
pub enum PipelineEvent {
    Start,
    Complete,
    TemporaryFailure,
    PermanentFailure,
    RetryReady,
}

/// An item that left the pipeline for the failed queue.
#[derive(Debug, Clone)]
pub struct FailedQueueItem {
    pub item_id: String,
    pub stage: String,
    pub error_code: String,
    pub error_message: String,
    pub attempt: u32,
}

/// The transition table: a queued item starts processing; processing ends in
/// success, a retry wait or failure; a retry wait returns to the queue. Every
/// other event leaves the state as it is.
pub open spec fn next_state(state: PipelineState, event: PipelineEvent) -> PipelineState {
    match (state, event) {
        (PipelineState::Queued, PipelineEvent::Start) => PipelineState::Processing,
        (PipelineState::Processing, PipelineEvent::Complete) => PipelineState::Succeeded,
        (PipelineState::Processing, PipelineEvent::TemporaryFailure) => PipelineState::RetryWait,
        (PipelineState::Processing, PipelineEvent::PermanentFailure) => PipelineState::Failed,
        (PipelineState::RetryWait, PipelineEvent::RetryReady) => PipelineState::Queued,
        (s, _) => s,
    }
}

pub fn transition(state: PipelineState, event: PipelineEvent) -> (r: PipelineState)
    ensures
        r == next_state(state, event),
{
    match (state, event) {
        (PipelineState::Queued, PipelineEvent::Start) => PipelineState::Processing,
        (PipelineState::Processing, PipelineEvent::Complete) => PipelineState::Succeeded,
        (PipelineState::Processing, PipelineEvent::TemporaryFailure) => PipelineState::RetryWait,
        (PipelineState::Processing, PipelineEvent::PermanentFailure) => PipelineState::Failed,
        (PipelineState::RetryWait, PipelineEvent::RetryReady) => PipelineState::Queued,
        (s, _) => s,
    }
}

/// At most three retries.
pub const MAX_RETRIES: u32 = 3;

pub open spec fn pow2(n: nat) -> nat
    decreases n,
{
    if n == 0 {
        1
    } else {
        2 * pow2((n - 1) as nat)
    }
}

/// The delay before retry number `attempt + 1`: `2^(attempt+1)` seconds plus
/// a jitter of `attempt * 137 mod 250` milliseconds, while fewer than three
/// attempts were made.
pub open spec fn retry_delay(attempt: u32) -> Option<u64> {
    if attempt >= MAX_RETRIES {
        None
    } else {
        Some((pow2((attempt + 1) as nat) * 1000 + (attempt as nat * 137) % 250) as u64)
    }
}

pub fn next_retry_delay_ms(attempt: u32) -> (r: Option<u64>)
    ensures
        r == retry_delay(attempt),
{
    if attempt >= 3 {
        return None;
    }
    let n = attempt + 1;
    let jitter = (attempt as u64 * 137) % 250;
    proof {
        reveal_with_fuel(pow2, 4);
        assert((1u64 << 1u32) == 2 && (1u64 << 2u32) == 4 && (1u64 << 3u32) == 8) by (bit_vector);
    }
    Some(((1u64 << n) * 1000) + jitter)
}

/// An item goes to the failed queue when its failure is permanent or when its
/// retries are used up.
pub open spec fn routes_to_failed_queue(attempt: u32, temporary: bool) -> bool {
    !temporary || attempt >= MAX_RETRIES
}

pub fn should_route_failed_queue(attempt: u32, temporary: bool) -> (r: bool)
    ensures
        r == routes_to_failed_queue(attempt, temporary),
{
    if !temporary {
        return true;
    }
    next_retry_delay_ms(attempt).is_none()
}

// ── Laws ────────────────────────────────────────────────────────────────────

/// Success and failure are final: no event leaves them.
pub proof fn law_terminal_states_absorb(event: PipelineEvent)
    ensures
        next_state(PipelineState::Succeeded, event) == PipelineState::Succeeded,
        next_state(PipelineState::Failed, event) == PipelineState::Failed,
{
}

/// Only a processing item can end, and it ends in exactly one of success,
/// retry wait or failure.
pub proof fn law_only_processing_ends(state: PipelineState, event: PipelineEvent)
    ensures
        (next_state(state, event) == PipelineState::Succeeded || next_state(state, event)
            == PipelineState::Failed) && next_state(state, event) != state ==> state
            == PipelineState::Processing,
{
}

/// A failure that is temporary either earns a retry delay or goes to the
/// failed queue, never both and never neither.
pub proof fn law_retry_or_failed_queue(attempt: u32)
    ensures
        retry_delay(attempt) is Some <==> !routes_to_failed_queue(attempt, true),
{
}

/// Each retry waits longer than the one before.
pub proof fn law_retry_delay_grows(attempt: u32)
    requires
        attempt + 1 < MAX_RETRIES,
    ensures
        retry_delay(attempt)->0 < retry_delay((attempt + 1) as u32)->0,
{
    reveal_with_fuel(pow2, 4);
}

/// How each state moves on: a queued item moves only when started, to
/// processing; a processing item succeeds only on completion, waits for a
/// retry only on a temporary failure and fails only on a permanent one; a
/// waiting item is queued again only when its retry is ready.
pub proof fn law_state_moves(event: PipelineEvent)
    ensures
        next_state(PipelineState::Queued, event) != PipelineState::Queued <==> event
            == PipelineEvent::Start,
        next_state(PipelineState::Queued, event) != PipelineState::Queued ==> next_state(
            PipelineState::Queued,
            event,
        ) == PipelineState::Processing,
        next_state(PipelineState::Processing, event) == PipelineState::Succeeded <==> event
            == PipelineEvent::Complete,
        next_state(PipelineState::Processing, event) == PipelineState::RetryWait <==> event
            == PipelineEvent::TemporaryFailure,
        next_state(PipelineState::Processing, event) == PipelineState::Failed <==> event
            == PipelineEvent::PermanentFailure,
        next_state(PipelineState::RetryWait, event) != PipelineState::RetryWait <==> event
            == PipelineEvent::RetryReady,
        next_state(PipelineState::RetryWait, event) != PipelineState::RetryWait ==> next_state(
            PipelineState::RetryWait,
            event,
        ) == PipelineState::Queued,
{
}

/// A temporary failure is not the end: the item comes back to the queue
/// once its retry is ready and can be started again.
pub proof fn law_temporary_failure_comes_back()
    ensures
        next_state(
            next_state(PipelineState::Processing, PipelineEvent::TemporaryFailure),
            PipelineEvent::RetryReady,
        ) == PipelineState::Queued,
        next_state(
            next_state(
                next_state(PipelineState::Processing, PipelineEvent::TemporaryFailure),
                PipelineEvent::RetryReady,
            ),
            PipelineEvent::Start,
        ) == PipelineState::Processing,
{
}

} // verus!
