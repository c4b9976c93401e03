//! The metadata-store record model: one `Bundle` per stored object, the
//! eligibility rule for settlement, the selection query of the orchestrator
//! and the aggregate statistics.

use vstd::prelude::*;

verus! {

/// One stored object record, as the metadata store holds it.
#[derive(Debug)]
pub struct Bundle {
    pub id: u32,
    pub optimistic_hash: String,
    pub bundle_txid: String,
    pub data_size: u32,
    pub is_settled: bool,
    pub content_type: String,
}

impl Clone for Bundle {
    fn clone(&self) -> (res: Self)
        ensures
            res == *self,
    {
        Bundle {
            id: self.id,
            optimistic_hash: self.optimistic_hash.clone(),
            bundle_txid: self.bundle_txid.clone(),
            data_size: self.data_size,
            is_settled: self.is_settled,
            content_type: self.content_type.clone(),
        }
    }
}

/// A lookup row holding only the content-addressed handle.
#[derive(Debug)]
pub struct BundleOptimisticHash {
    pub optimistic_hash: String,
}

/// Aggregate counts and sizes over all records.
#[derive(Clone, Copy, Debug, PartialEq, Eq, Structural)]
pub struct BundleStats {
    pub bundles_count: u32,
    pub settled_count: u32,
    pub total_data_size: u128,
}

/// A settlement id a record carries before it is settled: empty, or the
/// zero address written at insert time.
pub open spec fn spec_txid_sentinel(t: Seq<char>) -> bool {
    t.len() == 0 || t == "0x0000000000000000000000000000000000000000"@
}

/// The record invariant: a settled record always carries a non-sentinel
/// settlement id.
pub open spec fn spec_record_wf(b: Bundle) -> bool {
    b.is_settled ==> !spec_txid_sentinel(b.bundle_txid@)
}

/// A record is eligible for settlement iff it is not settled yet and holds
/// at least one byte.
pub open spec fn spec_eligible(b: Bundle) -> bool {
    !b.is_settled && b.data_size > 0
}

/// Whether `b` is eligible for settlement.
pub fn is_eligible(b: &Bundle) -> (r: bool)
    ensures
        r == spec_eligible(*b),
{
    !b.is_settled && b.data_size > 0
}

/// The eligible records of `s`, in their stored order.
pub open spec fn spec_eligible_of(s: Seq<Bundle>) -> Seq<Bundle>
    decreases s.len(),
{
    if s.len() == 0 {
        Seq::<Bundle>::empty()
    } else if spec_eligible(s.last()) {
        spec_eligible_of(s.drop_last()).push(s.last())
    } else {
        spec_eligible_of(s.drop_last())
    }
}

/// What the orchestrator's poll query returns: the eligible records in
/// stored order, at most `limit` of them.
pub open spec fn spec_select(s: Seq<Bundle>, limit: int) -> Seq<Bundle> {
    let el = spec_eligible_of(s);
    if el.len() <= limit {
        el
    } else {
        el.take(limit)
    }
}

/// Record ids strictly increase along the table: stored order is creation
/// order.
pub open spec fn spec_sorted_by_id(s: Seq<Bundle>) -> bool {
    forall|i: int, j: int| 0 <= i < j < s.len() ==> (#[trigger] s[i]).id < (#[trigger] s[j]).id
}

/// Selecting eligible records keeps every selected one eligible: a record
/// with no bytes, or one already settled, is never selected.
pub proof fn lemma_eligible_of_eligible(s: Seq<Bundle>)
    ensures
        forall|k: int|
            0 <= k < spec_eligible_of(s).len() ==> spec_eligible(#[trigger] spec_eligible_of(s)[k]),
    decreases s.len(),
{
    if s.len() > 0 {
        lemma_eligible_of_eligible(s.drop_last());
        let pre = spec_eligible_of(s.drop_last());
        assert forall|k: int| 0 <= k < spec_eligible_of(s).len() implies spec_eligible(
            #[trigger] spec_eligible_of(s)[k],
        ) by {
            if spec_eligible(s.last()) {
                if k < pre.len() {
                    assert(spec_eligible_of(s)[k] == pre[k]);
                } else {
                    assert(spec_eligible_of(s)[k] == s.last());
                }
            } else {
                assert(spec_eligible_of(s)[k] == pre[k]);
            }
        }
    }
}

/// `spec_eligible_of` distributes over concatenation.
pub proof fn lemma_eligible_of_concat(a: Seq<Bundle>, b: Seq<Bundle>)
    ensures
        spec_eligible_of(a + b) == spec_eligible_of(a) + spec_eligible_of(b),
    decreases b.len(),
{
    if b.len() == 0 {
        assert(a + b =~= a);
        assert(spec_eligible_of(a) + spec_eligible_of(b) =~= spec_eligible_of(a));
    } else {
        lemma_eligible_of_concat(a, b.drop_last());
        assert((a + b).drop_last() =~= a + b.drop_last());
        assert((a + b).last() == b.last());
        if spec_eligible(b.last()) {
            assert(spec_eligible_of(a) + spec_eligible_of(b) =~= (spec_eligible_of(a)
                + spec_eligible_of(b.drop_last())).push(b.last()));
        }
    }
}

/// Filtering for eligibility keeps the stored order: ids still strictly
/// increase, and no id exceeds the last one of the table.
pub proof fn lemma_eligible_of_sorted(s: Seq<Bundle>)
    requires
        spec_sorted_by_id(s),
    ensures
        spec_sorted_by_id(spec_eligible_of(s)),
        forall|k: int|
            0 <= k < spec_eligible_of(s).len() ==> s.len() > 0 && (#[trigger] spec_eligible_of(
                s,
            )[k]).id <= s.last().id,
    decreases s.len(),
{
    if s.len() > 0 {
        assert forall|i: int, j: int| 0 <= i < j < s.drop_last().len() implies (
        #[trigger] s.drop_last()[i]).id < (#[trigger] s.drop_last()[j]).id by {
            assert(s.drop_last()[i] == s[i]);
            assert(s.drop_last()[j] == s[j]);
        }
        lemma_eligible_of_sorted(s.drop_last());
        let pre = spec_eligible_of(s.drop_last());
        let el = spec_eligible_of(s);
        assert forall|k: int| 0 <= k < el.len() implies s.len() > 0 && (#[trigger] el[k]).id
            <= s.last().id by {
            if k < pre.len() {
                assert(el[k] == pre[k]);
                if s.drop_last().len() > 0 {
                    assert(s.drop_last().last() == s[s.len() - 2]);
                    assert(s[s.len() - 2].id < s.last().id);
                }
            } else {
                assert(el[k] == s.last());
            }
        }
        assert forall|i: int, j: int| 0 <= i < j < el.len() implies (#[trigger] el[i]).id < (
        #[trigger] el[j]).id by {
            if j < pre.len() {
                assert(el[i] == pre[i]);
                assert(el[j] == pre[j]);
            } else if spec_eligible(s.last()) && j == pre.len() {
                assert(el[i] == pre[i]);
                assert(el[j] == s.last());
                if s.drop_last().len() > 0 {
                    assert(pre[i].id <= s.drop_last().last().id);
                    assert(s.drop_last().last() == s[s.len() - 2]);
                    assert(s[s.len() - 2].id < s.last().id);
                }
            }
        }
    }
}

/// The poll query returns the eligible records oldest first: selection
/// keeps the strictly increasing id order.
pub proof fn lemma_select_oldest_first(s: Seq<Bundle>, limit: int)
    requires
        spec_sorted_by_id(s),
        0 <= limit,
    ensures
        spec_sorted_by_id(spec_select(s, limit)),
{
    lemma_eligible_of_sorted(s);
    let el = spec_eligible_of(s);
    let sel = spec_select(s, limit);
    assert forall|i: int, j: int| 0 <= i < j < sel.len() implies (#[trigger] sel[i]).id < (
    #[trigger] sel[j]).id by {
        assert(sel[i] == el[i]);
        assert(sel[j] == el[j]);
    }
}

/// Every record the poll query returns is eligible.
pub proof fn lemma_select_eligible(s: Seq<Bundle>, limit: int)
    requires
        0 <= limit,
    ensures
        forall|k: int|
            0 <= k < spec_select(s, limit).len() ==> spec_eligible(
                #[trigger] spec_select(s, limit)[k],
            ),
{
    lemma_eligible_of_eligible(s);
    assert forall|k: int| 0 <= k < spec_select(s, limit).len() implies spec_eligible(
        #[trigger] spec_select(s, limit)[k],
    ) by {
        assert(spec_select(s, limit)[k] == spec_eligible_of(s)[k]);
    }
}

/// Selects at most `limit` eligible records, oldest first, from a table in
/// stored order. This is the orchestrator's poll query.
pub fn select_unsettled(records: &Vec<Bundle>, limit: usize) -> (out: Vec<Bundle>)
    ensures
        out@ == spec_select(records@, limit as int),
{
    let n: usize = records.len();
    let mut out: Vec<Bundle> = Vec::new();
    let mut i: usize = 0;
    proof {
        assert(records@.take(0) =~= Seq::<Bundle>::empty());
    }
    loop
        invariant_except_break
            0 <= i <= n,
            n == records@.len(),
            out@.len() <= limit,
            out@ == spec_eligible_of(records@.take(i as int)),
            out@.len() == limit ==> i <= n,
        ensures
            out@ == spec_select(records@, limit as int),
        decreases n - i,
    {
        if i == n {
            proof {
                assert(records@.take(n as int) =~= records@);
            }
            break;
        }
        if out.len() == limit {
            proof {
                let pre = records@.take(i as int);
                let post = records@.skip(i as int);
                assert(pre + post =~= records@);
                lemma_eligible_of_concat(pre, post);
                assert(spec_eligible_of(records@).take(limit as int) =~= spec_eligible_of(pre));
            }
            break;
        }
        let b = &records[i];
        proof {
            assert(records@.take(i as int + 1).drop_last() =~= records@.take(i as int));
            assert(records@.take(i as int + 1).last() == records@[i as int]);
        }
        if is_eligible(b) {
            out.push(b.clone());
        }
        i = i + 1;
    }
    out
}

/// `settled_count` of the statistics: how many records are settled.
pub open spec fn spec_settled_count(s: Seq<Bundle>) -> int
    decreases s.len(),
{
    if s.len() == 0 {
        0
    } else {
        spec_settled_count(s.drop_last()) + if s.last().is_settled {
            1int
        } else {
            0int
        }
    }
}

/// `total_data_size` of the statistics: the sum of all record sizes.
pub open spec fn spec_total_size(s: Seq<Bundle>) -> int
    decreases s.len(),
{
    if s.len() == 0 {
        0
    } else {
        spec_total_size(s.drop_last()) + s.last().data_size
    }
}

/// Computes the aggregate statistics over the whole table.
pub fn compute_stats(records: &Vec<Bundle>) -> (stats: BundleStats)
    requires
        records@.len() <= u32::MAX,
    ensures
        stats.bundles_count == records@.len(),
        stats.settled_count == spec_settled_count(records@),
        stats.total_data_size == spec_total_size(records@),
{
    let n: usize = records.len();
    let mut settled: u32 = 0;
    let mut total: u128 = 0;
    let mut i: usize = 0;
    proof {
        assert(records@.take(0) =~= Seq::<Bundle>::empty());
    }
    while i < n
        invariant
            0 <= i <= n,
            n == records@.len(),
            n <= u32::MAX,
            settled as int == spec_settled_count(records@.take(i as int)),
            total as int == spec_total_size(records@.take(i as int)),
            settled <= i,
            total <= i as int * (u32::MAX as int),
        decreases n - i,
    {
        proof {
            assert(records@.take(i as int + 1).drop_last() =~= records@.take(i as int));
            assert(records@.take(i as int + 1).last() == records@[i as int]);
        }
        if records[i].is_settled {
            settled = settled + 1;
        }
        total = total + records[i].data_size as u128;
        i = i + 1;
    }
    proof {
        assert(records@.take(n as int) =~= records@);
    }
    BundleStats { bundles_count: n as u32, settled_count: settled, total_data_size: total }
}

} // verus!
