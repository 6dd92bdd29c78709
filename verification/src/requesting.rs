//! Building and accepting mention requests at the ingestion boundary.

use crate::data::{NewMentionRequest, ProcessingStatus, WebmentionInput};
use crate::policy::{spec_validate, validate_target, MentionConfig, ValidationError};
use crate::queue::RequestQueue;
use vstd::prelude::*;

verus! {

/// Builds a persistable mention request from a raw submission, after the
/// target policy has accepted the target. Does not persist anything: a
/// rejected submission leaves no trace.
pub fn create_mention(
    allowed_hosts: &Vec<String>,
    source: &str,
    target: &str,
    sender: &str,
    initial_attempts: u32,
    now: i64,
) -> (r: Result<NewMentionRequest, ValidationError>)
    ensures
        match spec_validate(target@, allowed_hosts@) {
            Ok(()) => {
                &&& r matches Ok(m)
                &&& m.source_url@ == source@
                &&& m.target_url@ == target@
                &&& m.sender@ == sender@
                &&& m.mentioned_on == now
                &&& m.processing_status == ProcessingStatus::Pending
                &&& m.processing_attempts == initial_attempts
            },
            Err(e) => r == Err::<NewMentionRequest, ValidationError>(e),
        },
{
    match validate_target(target, allowed_hosts) {
        Ok(()) => Ok(
            NewMentionRequest {
                source_url: source.to_owned(),
                target_url: target.to_owned(),
                sender: sender.to_owned(),
                mentioned_on: now,
                processing_status: ProcessingStatus::Pending,
                processing_attempts: initial_attempts,
            },
        ),
        Err(e) => Err(e),
    }
}

/// Accepts one inbound submission: validates the target against the
/// allow-list and, only on success, appends a fresh `Pending` request with
/// no attempts counted to the queue. A rejected submission creates no row.
pub fn submit_webmention(
    config: &MentionConfig,
    queue: &mut RequestQueue,
    input: &WebmentionInput<'_>,
    sender: &str,
    now: i64,
) -> (r: Result<u64, ValidationError>)
    requires
        old(queue).well_formed(),
        old(queue)@.len() < u64::MAX,
    ensures
        final(queue).well_formed(),
        match spec_validate(input.target@, config.allowed_target_hosts@) {
            Ok(()) => {
                &&& r matches Ok(id)
                &&& id == old(queue)@.len()
                &&& final(queue)@.len() == old(queue)@.len() + 1
                &&& final(queue)@ == old(queue)@.push(final(queue)@.last())
                &&& final(queue)@.last().source_url@ == input.source@
                &&& final(queue)@.last().target_url@ == input.target@
                &&& final(queue)@.last().sender@ == sender@
                &&& final(queue)@.last().mentioned_on == now
                &&& final(queue)@.last().processing_status == ProcessingStatus::Pending
                &&& final(queue)@.last().processing_attempts == 0
            },
            Err(e) => r == Err::<u64, ValidationError>(e) && final(queue)@ == old(queue)@,
        },
{
    let mention = match create_mention(
        &config.allowed_target_hosts,
        input.source,
        input.target,
        sender,
        0,
        now,
    ) {
        Ok(m) => m,
        Err(e) => {
            return Err(e);
        },
    };
    let id = queue.insert(mention);
    Ok(id)
}

} // verus!
