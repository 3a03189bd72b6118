//! What a collector returns and the collectors that need no I/O to decide.

use vstd::prelude::*;
use crate::error::BackendError;

verus! {

/// The time window of a collection; either end may be open.
#[derive(Debug, Clone)]
pub struct CollectWindow {
    pub since: Option<String>,
    pub until: Option<String>,
}

/// One item as a collector found it.
#[derive(Debug, Clone)]
pub struct CollectedItem {
    pub external_id: String,
    pub source_url: String,
    pub title: Option<String>,
    pub content_raw: String,
    pub published_at: Option<String>,
    pub cover_url: Option<String>,
    pub image_urls: Vec<String>,
}

/// A content source. The fetching itself happens in the application.
pub trait Collector {
    /// The source's name.
    fn source(&self) -> &'static str;
}

/// The Bilibili collector, which collects nothing yet.
#[derive(Debug, Clone)]
pub struct BiliCollector {
    pub enabled: bool,
}

impl Default for BiliCollector {
    fn default() -> (r: Self)
        ensures
            !r.enabled,
    {
        BiliCollector { enabled: false }
    }
}

impl Collector for BiliCollector {
    fn source(&self) -> (r: &'static str)
        ensures
            r@ == "bili"@,
    {
        "bili"
    }
}

impl BiliCollector {
    /// The items of a collection: none, whether enabled or not.
    pub fn collect(&self, window: &CollectWindow) -> (r: Result<Vec<CollectedItem>, BackendError>)
        ensures
            r matches Ok(v) && v@.len() == 0,
    {
        if !self.enabled {
            return Ok(Vec::new());
        }
        Ok(Vec::new())
    }
}

} // verus!
