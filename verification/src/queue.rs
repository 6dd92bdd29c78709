//! The request queue: an append-only table of mention requests with the
//! retry-limited selection rule of a processing pass.
//!
//! Rows are never deleted. A processing pass selects, in queue order, at
//! most `limit` rows that are not completed and still have retries left;
//! completing a row and counting a failed attempt are the only mutations.

use crate::data::{MentionRequest, NewMentionRequest, ProcessingStatus};
use vstd::prelude::*;
use vstd::std_specs::vec::vec_index_mut;

verus! {

/// A request is given up on after this many failed attempts.
pub const MAX_RETRIES: u32 = 10;

/// How many requests one processing pass takes on when no bound is given.
pub const DEFAULT_PASS_LIMIT: usize = 100;

impl MentionRequest {
    /// Whether a processing pass may still select this request.
    pub open spec fn eligible(self) -> bool {
        self.processing_status != ProcessingStatus::Completed && self.processing_attempts
            < MAX_RETRIES
    }
}

/// The projection of a queue row that a processing pass works on.
pub struct PendingRequest {
    pub id: u64,
    pub source_url: String,
    pub target_url: String,
    pub processing_attempts: u32,
    pub mentioned_on: i64,
}

/// Whether `p` is the processing projection of row `r`.
pub open spec fn projects(p: PendingRequest, r: MentionRequest) -> bool {
    &&& p.id == r.id
    &&& p.source_url@ == r.source_url@
    &&& p.target_url@ == r.target_url@
    &&& p.processing_attempts == r.processing_attempts
    &&& p.mentioned_on == r.mentioned_on
}

/// The first at most `limit` eligible rows of `rows`, in queue order.
pub open spec fn select_spec(rows: Seq<MentionRequest>, limit: nat) -> Seq<MentionRequest>
    decreases rows.len(),
{
    if rows.len() == 0 || limit == 0 {
        Seq::empty()
    } else if rows[0].eligible() {
        seq![rows[0]] + select_spec(rows.drop_first(), (limit - 1) as nat)
    } else {
        select_spec(rows.drop_first(), limit)
    }
}

/// Everything a pass selects is an eligible row, and no more than `limit`
/// rows are selected.
pub proof fn lemma_select_spec_sound(rows: Seq<MentionRequest>, limit: nat)
    ensures
        select_spec(rows, limit).len() <= limit,
        forall|k: int|
            0 <= k < select_spec(rows, limit).len() ==> (#[trigger] select_spec(rows, limit)[k]).eligible()
                && rows.contains(select_spec(rows, limit)[k]),
    decreases rows.len(),
{
    if rows.len() == 0 || limit == 0 {
    } else {
        let rest = rows.drop_first();
        lemma_select_spec_sound(rest, (limit - 1) as nat);
        lemma_select_spec_sound(rest, limit);
        assert forall|k: int|
            0 <= k < select_spec(rows, limit).len() implies (#[trigger] select_spec(rows, limit)[k]).eligible()
            && rows.contains(select_spec(rows, limit)[k]) by {
            if rows[0].eligible() {
                if k == 0 {
                    assert(rows.contains(rows[0])) by {
                        assert(rows[0] == rows[0]);
                    }
                } else {
                    let e = select_spec(rest, (limit - 1) as nat)[k - 1];
                    assert(select_spec(rows, limit)[k] == e);
                    let j = choose|j: int| 0 <= j < rest.len() && rest[j] == e;
                    assert(rows[j + 1] == e);
                }
            } else {
                let e = select_spec(rest, limit)[k];
                let j = choose|j: int| 0 <= j < rest.len() && rest[j] == e;
                assert(rows[j + 1] == e);
            }
        }
    }
}

/// A row that is not eligible — completed, or out of retries — is never
/// among the selected, whatever the pass bound is.
pub proof fn lemma_ineligible_never_selected(rows: Seq<MentionRequest>, limit: nat, i: int)
    requires
        0 <= i < rows.len(),
        !rows[i].eligible(),
        forall|j: int, k: int|
            0 <= j < rows.len() && 0 <= k < rows.len() && j != k ==> (#[trigger] rows[j]).id != (
            #[trigger] rows[k]).id,
    ensures
        forall|k: int|
            0 <= k < select_spec(rows, limit).len() ==> (#[trigger] select_spec(rows, limit)[k]).id
                != rows[i].id,
{
    lemma_select_spec_sound(rows, limit);
    assert forall|k: int|
        0 <= k < select_spec(rows, limit).len() implies (#[trigger] select_spec(rows, limit)[k]).id
        != rows[i].id by {
        let e = select_spec(rows, limit)[k];
        let j = choose|j: int| 0 <= j < rows.len() && rows[j] == e;
        if j == i {
            assert(rows[i].eligible());
        }
    }
}

/// A completed request is excluded from every later selection, whatever
/// bound the pass runs with.
pub proof fn lemma_completed_never_selected(q: RequestQueue, limit: nat, i: int)
    requires
        q.well_formed(),
        0 <= i < q@.len(),
        q@[i].processing_status == ProcessingStatus::Completed,
    ensures
        forall|k: int|
            0 <= k < select_spec(q@, limit).len() ==> (#[trigger] select_spec(q@, limit)[k]).id
                != q@[i].id,
{
    assert forall|j: int, k: int|
        0 <= j < q@.len() && 0 <= k < q@.len() && j != k implies (#[trigger] q@[j]).id != (
    #[trigger] q@[k]).id by {
        assert(q@[j].id == j as u64);
        assert(q@[k].id == k as u64);
    }
    lemma_ineligible_never_selected(q@, limit, i);
}

/// A request whose retries ran out is excluded from every later selection,
/// though its status stays as it was.
pub proof fn lemma_exhausted_never_selected(q: RequestQueue, limit: nat, i: int)
    requires
        q.well_formed(),
        0 <= i < q@.len(),
        q@[i].processing_attempts >= MAX_RETRIES,
    ensures
        forall|k: int|
            0 <= k < select_spec(q@, limit).len() ==> (#[trigger] select_spec(q@, limit)[k]).id
                != q@[i].id,
{
    assert forall|j: int, k: int|
        0 <= j < q@.len() && 0 <= k < q@.len() && j != k implies (#[trigger] q@[j]).id != (
    #[trigger] q@[k]).id by {
        assert(q@[j].id == j as u64);
        assert(q@[k].id == k as u64);
    }
    lemma_ineligible_never_selected(q@, limit, i);
}

/// The durable table of submitted mention requests.
pub struct RequestQueue {
    requests: Vec<MentionRequest>,
}

impl View for RequestQueue {
    type V = Seq<MentionRequest>;

    closed spec fn view(&self) -> Seq<MentionRequest> {
        self.requests@
    }
}

impl RequestQueue {
    /// Row ids are exactly the rows' positions: ids are unique and stable,
    /// as a relational table with a serial key would assign them.
    pub open spec fn well_formed(self) -> bool {
        &&& self@.len() <= u64::MAX
        &&& forall|i: int| 0 <= i < self@.len() ==> (#[trigger] self@[i]).id == i as u64
    }

    pub fn new() -> (q: RequestQueue)
        ensures
            q@ == Seq::<MentionRequest>::empty(),
            q.well_formed(),
    {
        RequestQueue { requests: Vec::new() }
    }

    pub fn len(&self) -> (n: usize)
        ensures
            n == self@.len(),
    {
        self.requests.len()
    }

    /// The row with id `id`, if there is one.
    pub fn get(&self, id: u64) -> (r: Option<&MentionRequest>)
        requires
            self.well_formed(),
        ensures
            r is Some <==> id < self@.len(),
            r matches Some(m) ==> *m == self@[id as int],
    {
        if id < self.requests.len() as u64 {
            Some(&self.requests[id as usize])
        } else {
            None
        }
    }

    /// Appends a submitted request and assigns it the next id.
    pub fn insert(&mut self, new: NewMentionRequest) -> (id: u64)
        requires
            old(self).well_formed(),
            old(self)@.len() < u64::MAX,
        ensures
            final(self).well_formed(),
            id == old(self)@.len(),
            final(self)@ == old(self)@.push(
                MentionRequest {
                    id: id,
                    source_url: new.source_url,
                    target_url: new.target_url,
                    sender: new.sender,
                    mentioned_on: new.mentioned_on,
                    processing_status: new.processing_status,
                    processing_attempts: new.processing_attempts,
                },
            ),
    {
        let id = self.requests.len() as u64;
        self.requests.push(
            MentionRequest {
                id: id,
                source_url: new.source_url,
                target_url: new.target_url,
                sender: new.sender,
                mentioned_on: new.mentioned_on,
                processing_status: new.processing_status,
                processing_attempts: new.processing_attempts,
            },
        );
        id
    }

    /// Selects, in queue order, at most `limit` rows that are neither
    /// completed nor out of retries, projected to what a pass needs.
    pub fn select_pending(&self, limit: usize) -> (r: Vec<PendingRequest>)
        ensures
            r@.len() == select_spec(self@, limit as nat).len(),
            forall|k: int|
                0 <= k < r@.len() ==> projects(#[trigger] r@[k], select_spec(self@, limit as nat)[k]),
            r@.len() <= limit,
            forall|k: int|
                0 <= k < r@.len() ==> (#[trigger] r@[k]).processing_attempts < MAX_RETRIES,
            forall|k: int|
                0 <= k < r@.len() ==> (#[trigger] select_spec(self@, limit as nat)[k]).eligible(),
            self.well_formed() ==> forall|k: int|
                0 <= k < r@.len() ==> (#[trigger] r@[k]).id < self@.len(),
    {
        proof {
            lemma_select_spec_sound(self@, limit as nat);
        }
        let rows = &self.requests;
        let n = rows.len();
        let mut out: Vec<PendingRequest> = Vec::new();
        let ghost picked: Seq<MentionRequest> = Seq::empty();
        let mut j: usize = 0;
        proof {
            assert(self@.skip(0) =~= self@);
        }
        while j < n && out.len() < limit
            invariant
                j <= n,
                n == self@.len(),
                rows@ == self@,
                out@.len() == picked.len(),
                picked.len() <= limit,
                forall|k: int| 0 <= k < picked.len() ==> projects(#[trigger] out@[k], picked[k]),
                forall|k: int| 0 <= k < picked.len() ==> (#[trigger] picked[k]).eligible(),
                select_spec(self@, limit as nat) == picked + select_spec(
                    self@.skip(j as int),
                    (limit - picked.len()) as nat,
                ),
            decreases n - j,
        {
            let row = &rows[j];
            proof {
                assert(self@.skip(j as int)[0] == self@[j as int]);
                assert(self@.skip(j as int).drop_first() =~= self@.skip(j as int + 1));
            }
            let eligible = !matches!(row.processing_status, ProcessingStatus::Completed)
                && row.processing_attempts < MAX_RETRIES;
            if eligible {
                let p = PendingRequest {
                    id: row.id,
                    source_url: row.source_url.clone(),
                    target_url: row.target_url.clone(),
                    processing_attempts: row.processing_attempts,
                    mentioned_on: row.mentioned_on,
                };
                out.push(p);
                proof {
                    let rem = (limit - picked.len()) as nat;
                    assert(select_spec(self@.skip(j as int), rem) == seq![self@[j as int]]
                        + select_spec(self@.skip(j as int + 1), (rem - 1) as nat));
                    picked = picked.push(self@[j as int]);
                    assert((picked.drop_last() + (seq![self@[j as int]] + select_spec(
                        self@.skip(j as int + 1),
                        (rem - 1) as nat,
                    ))) =~= picked + select_spec(self@.skip(j as int + 1), (rem - 1) as nat));
                }
            } else {
                proof {
                    let rem = (limit - picked.len()) as nat;
                    assert(select_spec(self@.skip(j as int), rem) == select_spec(
                        self@.skip(j as int + 1),
                        rem,
                    ));
                }
            }
            j += 1;
        }
        proof {
            if j == n {
                assert(self@.skip(j as int) =~= Seq::<MentionRequest>::empty());
            }
            assert(picked + select_spec(self@.skip(j as int), (limit - picked.len()) as nat)
                =~= picked);
            assert(select_spec(self@, limit as nat) == picked);
            if self.well_formed() {
                assert forall|k: int| 0 <= k < out@.len() implies (#[trigger] out@[k]).id
                    < self@.len() by {
                    let e = select_spec(self@, limit as nat)[k];
                    let w = choose|w: int| 0 <= w < self@.len() && self@[w] == e;
                    assert(self@[w].id == w as u64);
                    assert(projects(out@[k], e));
                }
            }
        }
        out
    }

    /// Marks the row with id `id` completed; reports whether it exists.
    pub fn mark_completed(&mut self, id: u64) -> (found: bool)
        requires
            old(self).well_formed(),
        ensures
            final(self).well_formed(),
            found <==> id < old(self)@.len(),
            found ==> final(self)@ == old(self)@.update(
                id as int,
                MentionRequest {
                    processing_status: ProcessingStatus::Completed,
                    ..old(self)@[id as int]
                },
            ),
            !found ==> final(self)@ == old(self)@,
    {
        if id < self.requests.len() as u64 {
            let row = vec_index_mut(&mut self.requests, id as usize);
            row.processing_status = ProcessingStatus::Completed;
            true
        } else {
            false
        }
    }

    /// Counts one more failed attempt on the row with id `id`; reports
    /// whether it exists. The status is left as it was.
    pub fn increment_attempts(&mut self, id: u64) -> (found: bool)
        requires
            old(self).well_formed(),
            id < old(self)@.len() ==> old(self)@[id as int].processing_attempts < u32::MAX,
        ensures
            final(self).well_formed(),
            found <==> id < old(self)@.len(),
            found ==> final(self)@ == old(self)@.update(
                id as int,
                MentionRequest {
                    processing_attempts: (old(self)@[id as int].processing_attempts + 1) as u32,
                    ..old(self)@[id as int]
                },
            ),
            !found ==> final(self)@ == old(self)@,
    {
        if id < self.requests.len() as u64 {
            let row = vec_index_mut(&mut self.requests, id as usize);
            row.processing_attempts = row.processing_attempts + 1;
            true
        } else {
            false
        }
    }
}

} // verus!
