use vstd::prelude::*;

verus! {

/// Where appended items go in a thread's log.
#[derive(Debug)]
pub struct AppendPlan {
    /// The sequence number of each item, in the order given.
    pub seqs: Vec<i64>,
    /// The first new sequence number.
    pub from_seq: i64,
    /// The last new sequence number, the thread's latest afterwards.
    pub to_seq: i64,
}

/// The sequence numbers of `item_count` items appended after the thread's
/// latest one: consecutive, starting right after it. Nothing is appended
/// when there are no items.
pub fn plan_append(latest_seq: i64, item_count: usize) -> (r: Option<AppendPlan>)
    requires
        latest_seq + item_count <= i64::MAX,
    ensures
        item_count == 0 ==> r is None,
        item_count > 0 ==> (r matches Some(p) && {
            &&& p.seqs@.len() == item_count
            &&& forall|i: int| 0 <= i < item_count ==> #[trigger] p.seqs@[i] == latest_seq + 1 + i
            &&& p.from_seq == latest_seq + 1
            &&& p.to_seq == latest_seq + item_count
        }),
{
    if item_count == 0 {
        return None;
    }
    let mut seqs: Vec<i64> = Vec::new();
    let mut next_seq = latest_seq;
    let mut i: usize = 0;
    while i < item_count
        invariant
            i <= item_count,
            latest_seq + item_count <= i64::MAX,
            next_seq == latest_seq + i,
            seqs@.len() == i,
            forall|k: int| 0 <= k < i ==> #[trigger] seqs@[k] == latest_seq + 1 + k,
        decreases item_count - i,
    {
        next_seq = next_seq + 1;
        seqs.push(next_seq);
        i = i + 1;
    }
    Some(AppendPlan { seqs, from_seq: latest_seq + 1, to_seq: next_seq })
}

/// Sequence numbers handed out by an append are distinct and increasing,
/// and all lie after the thread's latest one.
pub proof fn lemma_append_seqs_increase(p: AppendPlan, latest_seq: i64, item_count: usize)
    requires
        p.seqs@.len() == item_count,
        forall|i: int| 0 <= i < item_count ==> #[trigger] p.seqs@[i] == latest_seq + 1 + i,
    ensures
        forall|i: int, j: int| 0 <= i < j < item_count ==> p.seqs@[i] < p.seqs@[j],
        forall|i: int| 0 <= i < item_count ==> p.seqs@[i] > latest_seq,
{
    assert forall|i: int, j: int| 0 <= i < j < item_count implies p.seqs@[i] < p.seqs@[j] by {
        assert(p.seqs@[i] == latest_seq + 1 + i);
        assert(p.seqs@[j] == latest_seq + 1 + j);
    }
}

} // verus!
