//! The content pipeline: normalisation, analysis, deduplication and the
//! processing state machine.

pub mod analyze;
pub mod dedupe;
pub mod normalize;
pub mod queue;
pub mod score;
