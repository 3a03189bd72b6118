//! The database mode of the Notion sync: results, the retry back-off and the
//! idempotent upsert plan.

use vstd::prelude::*;
use crate::pipeline::queue::pow2;

verus! {

#[derive(Debug, Clone)]
pub struct SyncResult {
    pub success: usize,
    pub failed: usize,
}

#[derive(Debug, Clone)]
pub struct SyncErrorDetail {
    pub normalized_item_id: String,
    pub code: String,
    pub message: String,
    pub retryable: bool,
}

#[derive(Debug, Clone)]
pub struct IdempotentSyncResult {
    pub create: usize,
    pub update: usize,
    pub skip: usize,
    pub errors: Vec<SyncErrorDetail>,
}

#[derive(Debug, Clone, Copy, PartialEq, Eq, Structural)]
pub enum UpsertAction {
    Create,
    Update,
    Skip,
}

/// How many times a sync is attempted.
#[derive(Debug, Clone, Copy)]
pub struct RetryPolicy {
    pub max_attempts: u32,
}

impl Default for RetryPolicy {
    fn default() -> (r: Self)
        ensures
            r.max_attempts == 3,
    {
        RetryPolicy { max_attempts: 3 }
    }
}

/// The wait before a retry: `2^min(attempt, 10)` seconds plus a jitter of
/// `attempt * 137 mod 250` milliseconds.
pub open spec fn backoff(attempt: u32) -> u64 {
    let n: nat = if attempt < 10 {
        attempt as nat
    } else {
        10
    };
    (pow2(n) * 1000 + (attempt as nat * 137) % 250) as u64
}

proof fn lemma_shift_is_pow2(n: u32)
    requires
        n <= 10,
    ensures
        (1u64 << n) == pow2(n as nat),
{
    reveal_with_fuel(pow2, 11);
    assert((1u64 << 0u32) == 1 && (1u64 << 1u32) == 2 && (1u64 << 2u32) == 4 && (1u64 << 3u32) == 8
        && (1u64 << 4u32) == 16 && (1u64 << 5u32) == 32 && (1u64 << 6u32) == 64 && (1u64 << 7u32)
        == 128 && (1u64 << 8u32) == 256 && (1u64 << 9u32) == 512 && (1u64 << 10u32) == 1024)
        by (bit_vector);
}

impl RetryPolicy {
    pub fn backoff_ms(&self, attempt: u32) -> (r: u64)
        ensures
            r == backoff(attempt),
    {
        let n = if attempt < 10 {
            attempt
        } else {
            10
        };
        let jitter = (attempt as u64 * 137) % 250;
        proof {
            lemma_shift_is_pow2(n);
            reveal_with_fuel(pow2, 11);
        }
        (1u64 << n) * 1000 + jitter
    }
}

/// The plan for a record: skip it when the stored key is its key, update the
/// stored record when the key changed, create it when nothing is stored.
pub open spec fn upsert_plan(existing: Option<(Seq<char>, Seq<char>)>, key: Seq<char>) -> (
    UpsertAction,
    Option<Seq<char>>,
) {
    match existing {
        Some((record_id, old_key)) => if old_key == key {
            (UpsertAction::Skip, Some(record_id))
        } else {
            (UpsertAction::Update, Some(record_id))
        },
        None => (UpsertAction::Create, None),
    }
}

/// The action for one record, given what the index holds for its id (the
/// stored record id and idempotency key) and the record's current key.
pub fn plan_upsert_action(existing: Option<(String, String)>, key: &str) -> (r: (
    UpsertAction,
    Option<String>,
))
    ensures
        (r.0, match r.1 {
            Some(s) => Some(s@),
            None => None,
        }) == upsert_plan(
            match existing {
                Some((a, b)) => Some((a@, b@)),
                None => None,
            },
            key@,
        ),
{
    match existing {
        Some((record_id, old_key)) => {
            if crate::text::str_eq(old_key.as_str(), key) {
                (UpsertAction::Skip, Some(record_id))
            } else {
                (UpsertAction::Update, Some(record_id))
            }
        },
        None => (UpsertAction::Create, None),
    }
}

/// A record synced again with an unchanged key is skipped and keeps its
/// target: syncing twice changes nothing the second time.
pub proof fn law_upsert_idempotent(record_id: Seq<char>, key: Seq<char>)
    ensures
        upsert_plan(Some((record_id, key)), key) == (UpsertAction::Skip, Some(record_id)),
{
}

/// A record is created only when nothing is stored for it, and an update
/// or skip always targets the stored record.
pub proof fn law_upsert_targets(existing: Option<(Seq<char>, Seq<char>)>, key: Seq<char>)
    ensures
        (upsert_plan(existing, key).0 == UpsertAction::Create) <==> existing is None,
        existing matches Some((id, _)) ==> upsert_plan(existing, key).1 == Some(id),
{
}

} // verus!
