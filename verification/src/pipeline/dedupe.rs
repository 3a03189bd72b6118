//! Hard deduplication by URL hash.

use vstd::prelude::*;
use crate::text::{chars_list, chars_of, list_contains, string_views};

verus! {

/// An item is a hard duplicate when its URL hash is already known.
pub fn is_hard_duplicate(url_hash: &str, existing_hashes: &Vec<String>) -> (r: bool)
    ensures
        r == string_views(existing_hashes@).contains(url_hash@),
{
    list_contains(&chars_list(existing_hashes), &chars_of(url_hash))
}

} // verus!
