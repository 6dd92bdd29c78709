//! Bookkeeping for the durable log: the version-controlled working
//! directory that mirrors the mention store.
//!
//! The log's transport (the working tree and its remote) lives outside
//! this crate; here the pass keeps the decisions straight: whether the
//! tree has unpublished changes, when a publish really commits, and the
//! audit trail of messages published so far. A pass brackets its work with
//! `reset` and `publish`, so a crashed pass can never smuggle half-written
//! files into the next publish.

use vstd::prelude::*;

verus! {

/// What a publish did.
#[derive(Debug, Clone, Copy, PartialEq, Eq, Structural)]
pub enum PublishOutcome {
    /// The working tree differed from the last published state; one commit
    /// with the given message was published.
    Published,
    /// Nothing had changed since the last published state, so nothing was
    /// committed.
    NothingToPublish,
}

/// The mathematical state of the log: whether the working tree has
/// unpublished changes, and the messages published so far, oldest first.
pub struct LogView {
    pub dirty: bool,
    pub history: Seq<Seq<char>>,
}

/// Resetting discards unpublished drift; the published history stays.
pub open spec fn spec_reset(l: LogView) -> LogView {
    LogView { dirty: false, ..l }
}

/// A mutation of the mirrored store leaves the working tree dirty.
pub open spec fn spec_mark_changed(l: LogView) -> LogView {
    LogView { dirty: true, ..l }
}

/// Publishing commits exactly when the tree is dirty; a clean tree is left
/// as it is and the caller is told nothing was published.
pub open spec fn spec_publish(l: LogView, msg: Seq<char>) -> (LogView, PublishOutcome) {
    if l.dirty {
        (LogView { dirty: false, history: l.history.push(msg) }, PublishOutcome::Published)
    } else {
        (l, PublishOutcome::NothingToPublish)
    }
}

/// A reset followed at once by a publish, with no mutation in between,
/// publishes nothing: the history is untouched and the outcome says so.
pub proof fn lemma_reset_then_publish_is_noop(l: LogView, msg: Seq<char>)
    ensures
        spec_publish(spec_reset(l), msg).0 == spec_reset(l),
        spec_publish(spec_reset(l), msg).1 == PublishOutcome::NothingToPublish,
{
}

/// The pipeline's record of the durable log.
pub struct DurableLog {
    dirty: bool,
    messages: Vec<String>,
}

impl View for DurableLog {
    type V = LogView;

    closed spec fn view(&self) -> LogView {
        LogView { dirty: self.dirty, history: self.messages@.map_values(|m: String| m@) }
    }
}

impl DurableLog {
    /// A log whose working tree matches the last published state and whose
    /// recorded trail is empty.
    pub fn new() -> (l: DurableLog)
        ensures
            !l@.dirty,
            l@.history == Seq::<Seq<char>>::empty(),
    {
        let l = DurableLog { dirty: false, messages: Vec::new() };
        proof {
            assert(l@.history =~= Seq::<Seq<char>>::empty());
        }
        l
    }

    pub fn is_dirty(&self) -> (r: bool)
        ensures
            r == self@.dirty,
    {
        self.dirty
    }

    /// How many publishes have committed.
    pub fn commit_count(&self) -> (n: usize)
        ensures
            n == self@.history.len(),
    {
        self.messages.len()
    }

    /// The messages published so far, oldest first.
    pub fn messages(&self) -> (r: &Vec<String>)
        ensures
            r@.len() == self@.history.len(),
            forall|i: int| 0 <= i < r@.len() ==> (#[trigger] r@[i])@ == self@.history[i],
    {
        &self.messages
    }

    /// Restores the working tree to the last published state, discarding
    /// any local modifications a crashed or unfinished pass left behind.
    pub fn reset(&mut self)
        ensures
            final(self)@ == spec_reset(old(self)@),
    {
        self.dirty = false;
    }

    /// Records that the mirrored store changed under the working tree.
    pub fn mark_changed(&mut self)
        ensures
            final(self)@ == spec_mark_changed(old(self)@),
    {
        self.dirty = true;
    }

    /// Commits and publishes the working tree under `message`, or reports
    /// that there was nothing to publish.
    pub fn publish(&mut self, message: String) -> (r: PublishOutcome)
        ensures
            final(self)@ == spec_publish(old(self)@, message@).0,
            r == spec_publish(old(self)@, message@).1,
    {
        if self.dirty {
            self.messages.push(message);
            self.dirty = false;
            proof {
                assert(self@.history =~= old(self)@.history.push(message@));
            }
            PublishOutcome::Published
        } else {
            PublishOutcome::NothingToPublish
        }
    }
}

} // verus!
