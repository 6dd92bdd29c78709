//! The processing orchestrator: one bounded, retry-limited pass over the
//! pending requests.
//!
//! A pass is bracketed by a reset and a publish of the durable log. The
//! verification of one request — fetching the source and confirming its
//! link to the target — is an outside collaborator's job; the caller runs
//! it and hands each outcome to `process_pending_request`, which applies
//! it in the fixed order: store first, then the log mirror, then the queue
//! row. Failures are isolated per request: one failed verification never
//! aborts the batch, it only spends one retry.

use crate::data::{MentionRequest, ProcessingStatus};
use crate::dates::{rfc2822_from_secs, rfc2822_of, MAX_RFC2822_SECS};
use crate::queue::{projects, select_spec, PendingRequest, RequestQueue, DEFAULT_PASS_LIMIT};
use crate::storage::{spec_apply, VerifiedMention, WebmentionStore};
use crate::synclog::{spec_mark_changed, spec_publish, spec_reset, DurableLog, PublishOutcome};
use vstd::prelude::*;
use vstd::string::StringExecFns;

verus! {

/// Why a verification attempt failed. Every kind — an unreachable source,
/// a timeout, a source that does not link to the target — drives the retry
/// counter the same way.
#[derive(Debug, Clone, Copy, PartialEq, Eq, Structural)]
pub enum VerificationFailure {
    /// The source page could not be fetched.
    FetchFailed,
    /// The source page does not link to the target.
    NoLinkToTarget,
}

/// The message a pass publishes, stamped with the pass time.
pub open spec fn spec_pass_message(now: int) -> Seq<char> {
    "wm-receiver: Webmentions processed at "@ + rfc2822_of(now)
}

/// Starts a processing pass: discards unpublished drift in the durable
/// log, then selects the batch — at most `limit` eligible requests, in
/// queue order, with the default bound where none is given.
pub fn begin_pass(log: &mut DurableLog, queue: &RequestQueue, limit: Option<usize>) -> (r: Vec<
    PendingRequest,
>)
    ensures
        final(log)@ == spec_reset(old(log)@),
        ({
            let lim = (match limit {
                Some(l) => l,
                None => DEFAULT_PASS_LIMIT,
            }) as nat;
            &&& r@.len() == select_spec(queue@, lim).len()
            &&& forall|k: int|
                0 <= k < r@.len() ==> projects(#[trigger] r@[k], select_spec(queue@, lim)[k])
            &&& r@.len() <= lim
            &&& queue.well_formed() ==> forall|k: int|
                0 <= k < r@.len() ==> (#[trigger] r@[k]).id < queue@.len()
        }),
{
    log.reset();
    let lim = match limit {
        Some(l) => l,
        None => DEFAULT_PASS_LIMIT,
    };
    queue.select_pending(lim)
}

/// Applies the outcome of one request's verification. An accepted mention
/// goes into the store under the request's target, the log mirror is
/// marked changed, and the request is completed; a failure counts one more
/// attempt, leaves the status as it was, and touches neither store nor
/// log.
pub fn process_pending_request(
    request: &PendingRequest,
    outcome: Result<VerifiedMention, VerificationFailure>,
    queue: &mut RequestQueue,
    store: &mut WebmentionStore,
    log: &mut DurableLog,
)
    requires
        old(queue).well_formed(),
        old(store).well_formed(),
        request.id < old(queue)@.len(),
        old(queue)@[request.id as int].processing_attempts < u32::MAX,
    ensures
        final(queue).well_formed(),
        final(store).well_formed(),
        match outcome {
            Ok(m) => {
                &&& final(store)@ == spec_apply(old(store)@, request.target_url@, m@)
                &&& final(queue)@ == old(queue)@.update(
                    request.id as int,
                    MentionRequest {
                        processing_status: ProcessingStatus::Completed,
                        ..old(queue)@[request.id as int]
                    },
                )
                &&& final(log)@ == spec_mark_changed(old(log)@)
            },
            Err(_) => {
                &&& final(store)@ == old(store)@
                &&& final(queue)@ == old(queue)@.update(
                    request.id as int,
                    MentionRequest {
                        processing_attempts: (old(queue)@[request.id as int].processing_attempts
                            + 1) as u32,
                        ..old(queue)@[request.id as int]
                    },
                )
                &&& final(log)@ == old(log)@
            },
        },
{
    match outcome {
        Ok(m) => {
            store.apply(request.target_url.as_str(), m);
            log.mark_changed();
            queue.mark_completed(request.id);
        },
        Err(_) => {
            queue.increment_attempts(request.id);
        },
    }
}

/// Ends a pass: publishes the working tree under a message naming the pass
/// time, or reports that nothing had changed.
pub fn finish_pass(log: &mut DurableLog, now_secs: i64) -> (r: PublishOutcome)
    requires
        0 <= now_secs <= MAX_RFC2822_SECS,
    ensures
        final(log)@ == spec_publish(old(log)@, spec_pass_message(now_secs as int)).0,
        r == spec_publish(old(log)@, spec_pass_message(now_secs as int)).1,
{
    let stamp = rfc2822_from_secs(now_secs);
    let message = "wm-receiver: Webmentions processed at ".to_owned().concat(stamp.as_str());
    log.publish(message)
}

} // verus!
