//! The records the webmention pipeline moves around.

use vstd::prelude::*;

verus! {

/// Where a queued request stands in processing.
///
/// The status only ever moves from `Pending` to `Completed`; a request
/// whose retries run out stays `Pending` forever and is simply no longer
/// selected.
#[derive(Debug, Clone, Copy, PartialEq, Eq, Structural)]
pub enum ProcessingStatus {
    Pending,
    Completed,
}

/// An inbound webmention submission: the page that links and the page of
/// ours it claims to link to.
pub struct WebmentionInput<'f> {
    pub source: &'f str,
    pub target: &'f str,
}

/// A mention request as the ingestion boundary builds it, before the queue
/// assigns it an id.
pub struct NewMentionRequest {
    pub source_url: String,
    pub target_url: String,
    /// Origin identifier of the submitter, kept for auditing.
    pub sender: String,
    /// Unix timestamp of the submission.
    pub mentioned_on: i64,
    pub processing_status: ProcessingStatus,
    /// How many processing attempts have failed so far.
    pub processing_attempts: u32,
}

/// A row of the request queue. Rows are never deleted: the queue is an
/// append-only audit trail, and only `processing_status` and
/// `processing_attempts` ever change.
pub struct MentionRequest {
    /// Unique, assigned at insertion.
    pub id: u64,
    pub source_url: String,
    pub target_url: String,
    pub sender: String,
    pub mentioned_on: i64,
    pub processing_status: ProcessingStatus,
    pub processing_attempts: u32,
}

} // verus!
