//! Records of the change review: the pending changes and the results of
//! accepting or rejecting them.

use vstd::prelude::*;

verus! {

/// One pending change of the review feed.
#[derive(Clone, Debug, Default)]
pub struct ReviewChangeEntry {
    pub patch_key: String,
    pub page_index: u16,
    pub region_id: String,
    pub source: String,
    pub kind: Option<String>,
    pub original_text: String,
    pub current_text: String,
}

/// Result of accepting or rejecting many changes at once.
#[derive(Clone, Copy, Debug, Default, PartialEq, Eq, Structural)]
pub struct ReviewBulkChangeResult {
    pub changed: bool,
    pub revision: u64,
    pub affected_patch_count: usize,
}

/// The pending changes at a revision.
#[derive(Clone, Debug, Default)]
pub struct ReviewFeedResult {
    pub revision: u64,
    pub pending_count: usize,
    pub changes: Vec<ReviewChangeEntry>,
}

#[derive(Clone, Debug, Default)]
pub struct RejectReviewChangeResult {
    pub changed: bool,
    pub revision: u64,
    pub patch_key: String,
}

#[derive(Clone, Debug, Default)]
pub struct AcceptReviewChangeResult {
    pub changed: bool,
    pub revision: u64,
    pub patch_key: String,
}

} // verus!
