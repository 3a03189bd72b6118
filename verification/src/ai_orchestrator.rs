//! Which models process an item.

use vstd::prelude::*;

verus! {

/// The models an item goes through, and why.
#[derive(Debug, Clone)]
pub struct ModelRoute {
    pub primary_model: &'static str,
    pub review_model: Option<&'static str>,
    pub reason: String,
}

/// Qwen-Plus always does the main pass; GPT-5 mini reviews when the score
/// rule asks for it and the budget still allows reviews.
pub fn select_route(review_by_rule: bool, review_enabled: bool) -> (r: ModelRoute)
    ensures
        r.primary_model@ == "qwen-plus"@,
        (review_by_rule && review_enabled) ==> (r.review_model matches Some(m) && m@
            == "gpt-5-mini"@ && r.reason@ == "review triggered by score rule"@),
        (review_by_rule && !review_enabled) ==> (r.review_model is None && r.reason@
            == "review disabled by budget circuit breaker"@),
        !review_by_rule ==> (r.review_model is None && r.reason@ == "primary only"@),
{
    if review_by_rule && review_enabled {
        return ModelRoute {
            primary_model: "qwen-plus",
            review_model: Some("gpt-5-mini"),
            reason: crate::text::str_to_string("review triggered by score rule"),
        };
    }
    if review_by_rule && !review_enabled {
        return ModelRoute {
            primary_model: "qwen-plus",
            review_model: None,
            reason: crate::text::str_to_string("review disabled by budget circuit breaker"),
        };
    }
    ModelRoute {
        primary_model: "qwen-plus",
        review_model: None,
        reason: crate::text::str_to_string("primary only"),
    }
}

} // verus!
