//! Settlement orchestration: the poll-cycle decisions, the per-record task
//! state machine, the bounded-concurrency semaphore and the single commit
//! that settlement may write. All outside work (store fetches, bundling
//! calls, waits) happens elsewhere; this module decides, from plain values,
//! what to do next.

use vstd::prelude::*;

verus! {

use crate::records::{lemma_select_eligible, spec_eligible, spec_eligible_of, spec_select, Bundle};

/// Size of one bundling chunk in bytes (4 MiB).
pub const CHUNK_SIZE: u64 = 4 * 1024 * 1024;

/// How many eligible records one poll fetches at most.
pub const SETTLEMENT_BATCH_SIZE: usize = 5;

/// How many settlement tasks may run at once.
pub const SETTLEMENT_CONCURRENCY: usize = 2;

/// Seconds to sleep when a poll finds nothing eligible.
pub const LONG_BACKOFF_SECS: u64 = 120;

/// Seconds to sleep when no permit could be had in time.
pub const MEDIUM_BACKOFF_SECS: u64 = 60;

/// Seconds to wait for a permit before shedding the load.
pub const PERMIT_WAIT_SECS: u64 = 5;

/// Seconds between successive spawn attempts within one cycle.
pub const SPAWN_DELAY_SECS: u64 = 5;

/// Number of chunks needed to cover `len` bytes: the ceiling of
/// `len / CHUNK_SIZE`.
pub open spec fn spec_chunk_count(len: nat) -> nat {
    ((len as int + CHUNK_SIZE as int - 1) / (CHUNK_SIZE as int)) as nat
}

/// Computes how many fixed-size chunks a payload of `len` bytes occupies.
pub fn chunk_count(len: u64) -> (count: u64)
    ensures
        count == spec_chunk_count(len as nat),
{
    if len == 0 {
        proof {
            vstd::arithmetic::div_mod::lemma_basic_div(
                CHUNK_SIZE as int - 1,
                CHUNK_SIZE as int,
            );
        }
        0
    } else {
        let count = (len - 1) / CHUNK_SIZE + 1;
        proof {
            let l = len as int;
            let c = CHUNK_SIZE as int;
            vstd::arithmetic::div_mod::lemma_div_plus_one(l - 1, c);
            vstd::arithmetic::div_mod::lemma_div_pos_is_pos(l + c - 1, c);
            assert(c + (l - 1) == l + c - 1);
        }
        count
    }
}

/// The chunk count is the ceiling of `len / CHUNK_SIZE`: the chunks cover
/// the payload, and one chunk fewer would not.
pub proof fn lemma_chunk_count_is_ceiling(len: nat)
    ensures
        len == 0 ==> spec_chunk_count(len) == 0,
        len > 0 ==> (spec_chunk_count(len) - 1) * CHUNK_SIZE < len,
        len <= spec_chunk_count(len) * CHUNK_SIZE,
{
    let c = CHUNK_SIZE as int;
    let x = len as int + c - 1;
    let q = x / c;
    vstd::arithmetic::div_mod::lemma_fundamental_div_mod(x, c);
    vstd::arithmetic::div_mod::lemma_mod_division_less_than_divisor(x, c);
    vstd::arithmetic::div_mod::lemma_div_pos_is_pos(x, c);
    let r = x % c;
    assert(x == q * c + r);
    assert(len as int == q * c + r - c + 1);
    assert((q - 1) * c == q * c - c) by (nonlinear_arith);
    if len == 0 {
        vstd::arithmetic::div_mod::lemma_basic_div(c - 1, c);
    }
}

/// The three bundling steps, in their required order.
#[derive(Clone, Copy, Debug, PartialEq, Eq, Structural)]
pub enum SettleStep {
    Build,
    Propagate,
    Finalize,
}

/// How one settlement attempt on one record ended.
#[derive(Debug)]
pub enum AttemptOutcome {
    /// The payload was empty: a no-op success, nothing is written.
    Skipped,
    /// The payload could not be fetched; the record stays eligible.
    FetchFailed,
    /// A bundling step failed; the record stays eligible.
    StepFailed(SettleStep),
    /// All steps succeeded; the settlement transaction id is owed to the
    /// record.
    Settled(String),
}

/// The per-record settlement task: strictly sequential, each step awaited
/// before the next begins. `Building`, `Propagating` and `Finalizing` carry
/// the chunk count of the fetched payload.
#[derive(Debug)]
pub enum TaskState {
    Fetching,
    Building(u64),
    Propagating(u64),
    Finalizing(u64),
    Done(AttemptOutcome),
}

/// What the outside world reported back to the task.
#[derive(Debug)]
pub enum TaskEvent {
    /// The object store returned a payload of this many bytes.
    Fetched(u64),
    /// The object store could not be read.
    FetchErrored,
    /// The pending bundling step completed.
    StepSucceeded,
    /// The finalize step completed with this transaction id.
    Finalized(String),
    /// The pending bundling step failed.
    StepErrored,
}

/// The task transition: what state follows `state` on `event`. An event
/// that does not belong to the state changes nothing.
pub open spec fn spec_task_step(state: TaskState, event: TaskEvent) -> TaskState {
    match (state, event) {
        (TaskState::Fetching, TaskEvent::Fetched(len)) => if len == 0 {
            TaskState::Done(AttemptOutcome::Skipped)
        } else {
            TaskState::Building(spec_chunk_count(len as nat) as u64)
        },
        (TaskState::Fetching, TaskEvent::FetchErrored) => TaskState::Done(
            AttemptOutcome::FetchFailed,
        ),
        (TaskState::Building(c), TaskEvent::StepSucceeded) => TaskState::Propagating(c),
        (TaskState::Building(_), TaskEvent::StepErrored) => TaskState::Done(
            AttemptOutcome::StepFailed(SettleStep::Build),
        ),
        (TaskState::Propagating(c), TaskEvent::StepSucceeded) => TaskState::Finalizing(c),
        (TaskState::Propagating(_), TaskEvent::StepErrored) => TaskState::Done(
            AttemptOutcome::StepFailed(SettleStep::Propagate),
        ),
        (TaskState::Finalizing(_), TaskEvent::Finalized(txid)) => TaskState::Done(
            AttemptOutcome::Settled(txid),
        ),
        (TaskState::Finalizing(_), TaskEvent::StepErrored) => TaskState::Done(
            AttemptOutcome::StepFailed(SettleStep::Finalize),
        ),
        (s, _) => s,
    }
}

/// Advances the settlement task by one event.
pub fn task_step(state: TaskState, event: TaskEvent) -> (next: TaskState)
    ensures
        next == spec_task_step(state, event),
{
    match (state, event) {
        (TaskState::Fetching, TaskEvent::Fetched(len)) => {
            if len == 0 {
                TaskState::Done(AttemptOutcome::Skipped)
            } else {
                TaskState::Building(chunk_count(len))
            }
        },
        (TaskState::Fetching, TaskEvent::FetchErrored) => TaskState::Done(
            AttemptOutcome::FetchFailed,
        ),
        (TaskState::Building(c), TaskEvent::StepSucceeded) => TaskState::Propagating(c),
        (TaskState::Building(_), TaskEvent::StepErrored) => TaskState::Done(
            AttemptOutcome::StepFailed(SettleStep::Build),
        ),
        (TaskState::Propagating(c), TaskEvent::StepSucceeded) => TaskState::Finalizing(c),
        (TaskState::Propagating(_), TaskEvent::StepErrored) => TaskState::Done(
            AttemptOutcome::StepFailed(SettleStep::Propagate),
        ),
        (TaskState::Finalizing(_), TaskEvent::Finalized(txid)) => TaskState::Done(
            AttemptOutcome::Settled(txid),
        ),
        (TaskState::Finalizing(_), TaskEvent::StepErrored) => TaskState::Done(
            AttemptOutcome::StepFailed(SettleStep::Finalize),
        ),
        (s, _) => s,
    }
}

/// The store write owed after an attempt: only a fully settled outcome
/// writes, and it writes the finalize result.
pub open spec fn spec_commit_of(outcome: AttemptOutcome) -> Option<Seq<char>> {
    match outcome {
        AttemptOutcome::Settled(txid) => Option::Some(txid@),
        _ => Option::None,
    }
}

/// The transaction id to commit for `outcome`, if any: the commit happens
/// only after finalize succeeded, all-or-nothing.
pub fn commit_of_outcome(outcome: AttemptOutcome) -> (upd: Option<String>)
    ensures
        upd.deep_view() == spec_commit_of(outcome),
{
    match outcome {
        AttemptOutcome::Settled(txid) => Option::Some(txid),
        AttemptOutcome::Skipped => Option::None,
        AttemptOutcome::FetchFailed => Option::None,
        AttemptOutcome::StepFailed(_) => Option::None,
    }
}

/// Commit atomicity: when the finalize step fails, the attempt ends in
/// `StepFailed(Finalize)` and nothing at all is written to the store.
pub proof fn lemma_finalize_failure_commits_nothing(c: u64)
    ensures
        spec_task_step(TaskState::Finalizing(c), TaskEvent::StepErrored) == TaskState::Done(
            AttemptOutcome::StepFailed(SettleStep::Finalize),
        ),
        spec_commit_of(AttemptOutcome::StepFailed(SettleStep::Finalize)) is None,
{
}

/// An empty payload ends the attempt as a no-op success, and a no-op
/// success writes nothing.
pub proof fn lemma_empty_payload_skips()
    ensures
        spec_task_step(TaskState::Fetching, TaskEvent::Fetched(0)) == TaskState::Done(
            AttemptOutcome::Skipped,
        ),
        spec_commit_of(AttemptOutcome::Skipped) is None,
{
}

/// The store after a commit of `txid` for the record with handle `hash`:
/// that record is settled and carries `txid`; every other record, and every
/// other field, is untouched.
pub open spec fn spec_committed(
    pre: Seq<Bundle>,
    post: Seq<Bundle>,
    hash: Seq<char>,
    txid: Seq<char>,
) -> bool {
    &&& post.len() == pre.len()
    &&& forall|i: int|
        0 <= i < pre.len() ==> if (#[trigger] pre[i]).optimistic_hash@ == hash {
            &&& (#[trigger] post[i]).id == pre[i].id
            &&& post[i].optimistic_hash == pre[i].optimistic_hash
            &&& post[i].bundle_txid@ == txid
            &&& post[i].data_size == pre[i].data_size
            &&& post[i].is_settled == true
            &&& post[i].content_type == pre[i].content_type
        } else {
            post[i] == pre[i]
        }
}

/// Applies the settlement commit to the store model: marks the record with
/// handle `hash` settled under `txid`. This is the only state mutation of
/// the whole flow.
pub fn commit_settled(records: &mut Vec<Bundle>, hash: &String, txid: &String)
    ensures
        spec_committed(old(records)@, final(records)@, hash@, txid@),
{
    let n: usize = records.len();
    let mut i: usize = 0;
    while i < n
        invariant
            0 <= i <= n,
            n == records@.len(),
            n == old(records)@.len(),
            forall|k: int| i <= k < n ==> records@[k] == old(records)@[k],
            forall|k: int|
                0 <= k < i ==> if (#[trigger] old(records)@[k]).optimistic_hash@ == hash@ {
                    &&& (#[trigger] records@[k]).id == old(records)@[k].id
                    &&& records@[k].optimistic_hash == old(records)@[k].optimistic_hash
                    &&& records@[k].bundle_txid@ == txid@
                    &&& records@[k].data_size == old(records)@[k].data_size
                    &&& records@[k].is_settled == true
                    &&& records@[k].content_type == old(records)@[k].content_type
                } else {
                    records@[k] == old(records)@[k]
                },
        decreases n - i,
    {
        if records[i].optimistic_hash == *hash {
            let updated = Bundle {
                id: records[i].id,
                optimistic_hash: records[i].optimistic_hash.clone(),
                bundle_txid: txid.clone(),
                data_size: records[i].data_size,
                is_settled: true,
                content_type: records[i].content_type.clone(),
            };
            records[i] = updated;
        }
        i = i + 1;
    }
}

/// The settled flag is monotonic: no commit ever takes a record from
/// settled back to unsettled.
pub proof fn lemma_settled_monotonic(
    pre: Seq<Bundle>,
    post: Seq<Bundle>,
    hash: Seq<char>,
    txid: Seq<char>,
)
    requires
        spec_committed(pre, post, hash, txid),
    ensures
        forall|i: int|
            0 <= i < pre.len() && (#[trigger] pre[i]).is_settled ==> post[i].is_settled,
{
}

/// A commit of a non-sentinel settlement id preserves the record invariant
/// across the whole table.
pub proof fn lemma_commit_preserves_wf(
    pre: Seq<Bundle>,
    post: Seq<Bundle>,
    hash: Seq<char>,
    txid: Seq<char>,
)
    requires
        spec_committed(pre, post, hash, txid),
        !crate::records::spec_txid_sentinel(txid),
        forall|i: int| 0 <= i < pre.len() ==> crate::records::spec_record_wf(#[trigger] pre[i]),
    ensures
        forall|i: int| 0 <= i < post.len() ==> crate::records::spec_record_wf(#[trigger] post[i]),
{
    assert forall|i: int| 0 <= i < post.len() implies crate::records::spec_record_wf(
        #[trigger] post[i],
    ) by {
        if pre[i].optimistic_hash@ == hash {
            assert(post[i].bundle_txid@ == txid);
        } else {
            assert(post[i] == pre[i]);
        }
    }
}

/// Each selected record occurs in the table it was selected from.
pub proof fn lemma_eligible_of_membership(s: Seq<Bundle>, k: int)
    requires
        0 <= k < spec_eligible_of(s).len(),
    ensures
        exists|m: int| 0 <= m < s.len() && spec_eligible_of(s)[k] == s[m],
    decreases s.len(),
{
    if s.len() > 0 {
        let pre = spec_eligible_of(s.drop_last());
        if spec_eligible(s.last()) && k == pre.len() {
            assert(spec_eligible_of(s)[k] == s[s.len() - 1]);
        } else {
            lemma_eligible_of_membership(s.drop_last(), k);
            let m = choose|m: int|
                0 <= m < s.drop_last().len() && spec_eligible_of(s.drop_last())[k] == s.drop_last()[
                    m
                ];
            assert(spec_eligible_of(s)[k] == s[m]);
        }
    }
}

/// Handles are unique across the table.
pub open spec fn spec_unique_handles(s: Seq<Bundle>) -> bool {
    forall|i: int, j: int|
        0 <= i < j < s.len() ==> (#[trigger] s[i]).optimistic_hash@ != (
        #[trigger] s[j]).optimistic_hash@
}

/// Skip law: a record with `data_size == 0` is never selected by the poll
/// query, and a commit for any record the query did select leaves the
/// zero-size record untouched: it never transitions `settled`.
pub proof fn lemma_zero_size_never_settled(
    s: Seq<Bundle>,
    post: Seq<Bundle>,
    limit: int,
    sel: int,
    z: int,
    txid: Seq<char>,
)
    requires
        0 <= limit,
        spec_unique_handles(s),
        0 <= z < s.len(),
        s[z].data_size == 0,
        0 <= sel < spec_select(s, limit).len(),
        spec_committed(s, post, spec_select(s, limit)[sel].optimistic_hash@, txid),
    ensures
        post[z] == s[z],
        !post[z].is_settled || s[z].is_settled,
{
    lemma_select_eligible(s, limit);
    let chosen = spec_select(s, limit)[sel];
    assert(chosen == spec_eligible_of(s)[sel]);
    lemma_eligible_of_membership(s, sel);
    let m = choose|m: int| 0 <= m < s.len() && spec_eligible_of(s)[sel] == s[m];
    assert(s[m].data_size > 0);
    assert(m != z);
    assert(s[z].optimistic_hash@ != chosen.optimistic_hash@);
}

/// The record after one attempt: a settled outcome writes the transaction
/// id and the flag; every other outcome leaves the record exactly as it
/// was.
pub fn apply_attempt(record: &Bundle, outcome: &AttemptOutcome) -> (after: Bundle)
    ensures
        match outcome {
            AttemptOutcome::Settled(txid) => {
                &&& after.id == record.id
                &&& after.optimistic_hash == record.optimistic_hash
                &&& after.bundle_txid@ == txid@
                &&& after.data_size == record.data_size
                &&& after.is_settled == true
                &&& after.content_type == record.content_type
            },
            _ => after == *record,
        },
{
    match outcome {
        AttemptOutcome::Settled(txid) => Bundle {
            id: record.id,
            optimistic_hash: record.optimistic_hash.clone(),
            bundle_txid: txid.clone(),
            data_size: record.data_size,
            is_settled: true,
            content_type: record.content_type.clone(),
        },
        _ => record.clone(),
    }
}

/// The bounded-concurrency budget of the orchestrator: a counting
/// semaphore of fixed capacity.
#[derive(Clone, Copy, Debug, PartialEq, Eq, Structural)]
pub struct SettlementSemaphore {
    pub capacity: usize,
    pub available: usize,
}

impl SettlementSemaphore {
    /// All permits of a fresh semaphore are available.
    pub open spec fn wf(self) -> bool {
        self.available <= self.capacity
    }

    /// A fresh semaphore with the given capacity.
    pub fn new(capacity: usize) -> (s: SettlementSemaphore)
        ensures
            s.wf(),
            s.capacity == capacity,
            s.available == capacity,
    {
        SettlementSemaphore { capacity, available: capacity }
    }

    /// Takes one permit if any is available: the only blocking point of the
    /// control loop, bounded elsewhere by a timeout.
    pub fn try_acquire(&mut self) -> (granted: bool)
        requires
            old(self).wf(),
        ensures
            final(self).wf(),
            final(self).capacity == old(self).capacity,
            granted == (old(self).available > 0),
            final(self).available == if granted {
                old(self).available - 1
            } else {
                old(self).available as int
            },
    {
        if self.available > 0 {
            self.available = self.available - 1;
            true
        } else {
            false
        }
    }

    /// Returns one permit; a task releases its permit unconditionally on
    /// completion.
    pub fn release(&mut self)
        requires
            old(self).wf(),
            old(self).available < old(self).capacity,
        ensures
            final(self).wf(),
            final(self).capacity == old(self).capacity,
            final(self).available == old(self).available + 1,
    {
        self.available = self.available + 1;
    }
}

/// What the control loop does after one poll.
#[derive(Debug)]
pub enum PollAction {
    /// Nothing is eligible: sleep the long backoff and poll again.
    SleepLong,
    /// Work exists: try to take a permit for the oldest eligible record.
    TryAcquire(Bundle),
}

/// Decides the step after one poll: sleep when the batch holds no workable
/// head, else try to acquire a permit for the oldest record.
pub fn poll_transition(batch: &Vec<Bundle>) -> (action: PollAction)
    ensures
        match action {
            PollAction::SleepLong => batch@.len() == 0 || batch@[0].data_size == 0,
            PollAction::TryAcquire(b) => batch@.len() > 0 && b == batch@[0] && b.data_size > 0,
        },
{
    if batch.len() == 0 {
        PollAction::SleepLong
    } else if batch[0].data_size == 0 {
        PollAction::SleepLong
    } else {
        PollAction::TryAcquire(batch[0].clone())
    }
}

/// How the bounded permit wait ended.
#[derive(Clone, Copy, Debug, PartialEq, Eq, Structural)]
pub enum PermitOutcome {
    Acquired,
    TimedOut,
    Closed,
}

/// What the control loop does after the permit wait.
#[derive(Debug)]
pub enum AcquireAction {
    /// Spawn the settlement task for the record; the task owns the permit
    /// for its lifetime.
    Spawn(Bundle),
    /// Load shedding: no permit in time, sleep the medium backoff.
    SleepMedium,
}

/// Decides the step after the bounded permit wait: spawn on success, shed
/// load on a timeout or a closed semaphore.
pub fn acquire_transition(outcome: PermitOutcome, record: Bundle) -> (action: AcquireAction)
    ensures
        match action {
            AcquireAction::Spawn(b) => outcome is Acquired && b == record,
            AcquireAction::SleepMedium => !(outcome is Acquired),
        },
{
    match outcome {
        PermitOutcome::Acquired => AcquireAction::Spawn(record),
        PermitOutcome::TimedOut => AcquireAction::SleepMedium,
        PermitOutcome::Closed => AcquireAction::SleepMedium,
    }
}

} // verus!

