//! What the row locks guarantee: a claimed row belongs to one transaction
//! until that transaction ends, and every row that can be claimed is claimed
//! in its turn.

use crate::storage::{
    backoff, blocks, claim_spec, claimable, delete_spec, end_spec, failed, is_next_claimable,
    lock_rows_spec, next_claimable, row_valid, rows_valid, selected, update_spec, Row, Staged,
};
use vstd::prelude::*;

verus! {

/// A statement that a transaction may issue against the table.
pub enum Operation {
    Claim { now: i64 },
    DeleteSuccessfulJob { id: i64 },
    UpdateFailedJob { id: i64, now: i64 },
    SelectForUpdate { retries: Option<i32> },
    Commit,
    Rollback,
}

/// The table after the transaction `txn` has issued `op`.
pub open spec fn apply(m: Map<i64, Row>, txn: u64, op: Operation) -> Map<i64, Row> {
    match op {
        Operation::Claim { now } => claim_spec(m, txn, now as int),
        Operation::DeleteSuccessfulJob { id } => delete_spec(m, txn, id),
        Operation::UpdateFailedJob { id, now } => update_spec(m, txn, id, now),
        Operation::SelectForUpdate { retries } => lock_rows_spec(m, txn, retries),
        Operation::Commit => end_spec(m, txn, true),
        Operation::Rollback => end_spec(m, txn, false),
    }
}

/// Where some row is claimable, one of them has the least id.
pub proof fn lemma_least_claimable(m: Map<i64, Row>, witness: i64, now: int)
    requires
        m.contains_key(witness),
        claimable(m[witness], now),
    ensures
        next_claimable(m, now) matches Some(id) && id <= witness && is_next_claimable(m, id, now),
    decreases witness - i64::MIN,
{
    if exists|j: i64| #[trigger] m.contains_key(j) && claimable(m[j], now) && j < witness {
        let j = choose|j: i64| #[trigger] m.contains_key(j) && claimable(m[j], now) && j < witness;
        lemma_least_claimable(m, j, now);
    } else {
        assert(is_next_claimable(m, witness, now));
        let c = choose|c: i64| is_next_claimable(m, c, now);
        assert(c <= witness);
    }
}

/// A claim answers with a row exactly when some row is claimable, and then
/// with the claimable row of the least id.
pub proof fn lemma_claim_answer(m: Map<i64, Row>, now: int)
    ensures
        match next_claimable(m, now) {
            Some(id) => is_next_claimable(m, id, now),
            None => forall|id: i64| #[trigger] m.contains_key(id) ==> !claimable(m[id], now),
        },
{
    if next_claimable(m, now) is None {
        assert forall|id: i64| #[trigger] m.contains_key(id) implies !claimable(m[id], now) by {
            if claimable(m[id], now) {
                lemma_least_claimable(m, id, now);
            }
        }
    }
}

/// Every statement takes a valid table to a valid table.
pub proof fn operations_keep_rows_valid(m: Map<i64, Row>, txn: u64, op: Operation)
    requires
        rows_valid(m),
    ensures
        rows_valid(apply(m, txn, op)),
{
    let after = apply(m, txn, op);
    match op {
        Operation::Commit => {
            assert(after.dom().subset_of(m.dom()));
            vstd::set_lib::lemma_len_subset(after.dom(), m.dom());
        },
        Operation::Rollback => {
            assert(after.dom().subset_of(m.dom()));
            vstd::set_lib::lemma_len_subset(after.dom(), m.dom());
        },
        Operation::SelectForUpdate { retries } => {
            assert(after.dom() =~= m.dom());
        },
        Operation::Claim { now } => {
            lemma_claim_answer(m, now as int);
            assert(after.dom() =~= m.dom());
        },
        Operation::DeleteSuccessfulJob { id } => {
            assert(after.dom() =~= m.dom());
        },
        Operation::UpdateFailedJob { id, now } => {
            assert(after.dom() =~= m.dom());
        },
    }
    assert forall|id: i64| #[trigger] after.contains_key(id) implies row_valid(id, after[id]) by {
        assert(m.contains_key(id));
    }
}

/// Exclusive claim. A claim never answers with a row whose lock is held, and
/// the row it answers with is locked by the claiming transaction from then
/// on. So when a transaction makes a claim while another, which has claimed
/// before it, is still open, the two are answered with different rows, and
/// after both claims each holds the lock of its own.
pub proof fn exclusive_claim(m: Map<i64, Row>, first: u64, now1: int, second: u64, now2: int)
    requires
        rows_valid(m),
        first != second,
    ensures
        forall|id: i64|
            #[trigger] m.contains_key(id) && m[id].locked_by is Some ==> next_claimable(m, now1)
                != Some(id),
        next_claimable(m, now1) matches Some(id) ==> claim_spec(m, first, now1).contains_key(id)
            && claim_spec(m, first, now1)[id].locked_by == Some(first),
        next_claimable(m, now1) is Some && next_claimable(claim_spec(m, first, now1), now2)
            is Some ==> {
            let between = claim_spec(m, first, now1);
            let after = claim_spec(between, second, now2);
            let a = next_claimable(m, now1).unwrap();
            let b = next_claimable(between, now2).unwrap();
            &&& a != b
            &&& after.contains_key(a)
            &&& after.contains_key(b)
            &&& after[a].locked_by == Some(first)
            &&& after[b].locked_by == Some(second)
        },
{
    lemma_claim_answer(m, now1);
    lemma_claim_answer(claim_spec(m, first, now1), now2);
}

/// Atomic finalization. While a transaction holds the lock of a row, no
/// statement of another transaction touches the row: it stays in the table,
/// with its committed state, its staged write and its lock as they were. A
/// locking read by another transaction that selects the row has to wait.
pub proof fn lock_is_held_until_its_transaction_ends(
    m: Map<i64, Row>,
    id: i64,
    holder: u64,
    other: u64,
    op: Operation,
)
    requires
        rows_valid(m),
        m.contains_key(id),
        m[id].locked_by == Some(holder),
        other != holder,
    ensures
        apply(m, other, op).contains_key(id),
        apply(m, other, op)[id] == m[id],
        op matches Operation::SelectForUpdate { retries } ==> (selected(m[id], retries)
            ==> blocks(m, other, retries)),
{
    match op {
        Operation::Claim { now } => {
            lemma_claim_answer(m, now as int);
        },
        _ => {},
    }
}

/// The write that concludes a run and the release of the row's lock are one
/// step: when the holder commits, a staged deletion removes the row, a staged
/// update becomes the row's committed state, and in both cases the lock is
/// gone in the same table. When the holder rolls back, the row is unlocked
/// with its committed state untouched.
pub proof fn finalization_commits_with_release(m: Map<i64, Row>, id: i64, holder: u64)
    requires
        rows_valid(m),
        m.contains_key(id),
        m[id].locked_by == Some(holder),
    ensures
        m[id].staged is Delete ==> !end_spec(m, holder, true).contains_key(id),
        m[id].staged matches Staged::Update { retries, last_retry_at } ==> {
            let row = end_spec(m, holder, true)[id];
            &&& end_spec(m, holder, true).contains_key(id)
            &&& row.retries == retries
            &&& row.last_retry_at == last_retry_at
            &&& row.locked_by is None
            &&& row.staged is Nothing
        },
        m[id].staged is Nothing ==> {
            let row = end_spec(m, holder, true)[id];
            &&& end_spec(m, holder, true).contains_key(id)
            &&& row.retries == m[id].retries
            &&& row.last_retry_at == m[id].last_retry_at
            &&& row.locked_by is None
            &&& row.staged is Nothing
        },
        ({
            let row = end_spec(m, holder, false)[id];
            &&& end_spec(m, holder, false).contains_key(id)
            &&& row.retries == m[id].retries
            &&& row.last_retry_at == m[id].last_retry_at
            &&& row.locked_by is None
            &&& row.staged is Nothing
        }),
{
}

/// The backoff never shrinks as the retries grow.
pub proof fn backoff_is_monotone(fewer: int, more: int)
    requires
        fewer <= more,
    ensures
        0 < backoff(fewer) <= backoff(more),
    decreases more,
{
    if more <= 0 {
    } else if fewer == more {
        backoff_is_monotone(fewer - 1, more - 1);
    } else {
        backoff_is_monotone(fewer, more - 1);
    }
}

/// The rows that may be claimed ahead of the row `id`: those of a lesser id
/// that are unlocked and have retries left.
pub open spec fn ahead_of(m: Map<i64, Row>, id: i64) -> Set<i64> {
    m.dom().filter(|j: i64| j < id && m[j].locked_by is None && !failed(m[j]))
}

/// The table after the claims in `steps`, each a transaction and the time of
/// its claim, have been made one after the other.
pub open spec fn after_claims(m: Map<i64, Row>, steps: Seq<(u64, i64)>) -> Map<i64, Row>
    decreases steps.len(),
{
    if steps.len() == 0 {
        m
    } else {
        after_claims(claim_spec(m, steps[0].0, steps[0].1 as int), steps.drop_first())
    }
}

/// Claims leave a locked row as it is.
pub proof fn lemma_claims_keep_locks(m: Map<i64, Row>, id: i64, steps: Seq<(u64, i64)>)
    requires
        m.contains_key(id),
        m[id].locked_by is Some,
    ensures
        after_claims(m, steps).contains_key(id),
        after_claims(m, steps)[id] == m[id],
    decreases steps.len(),
{
    if steps.len() > 0 {
        lemma_claim_answer(m, steps[0].1 as int);
        lemma_claims_keep_locks(
            claim_spec(m, steps[0].0, steps[0].1 as int),
            id,
            steps.drop_first(),
        );
    }
}

/// At-least-once dispatch. A row that is claimable at time `since` has been
/// claimed once workers have made more claims, at that time or later, than
/// there are rows that may be claimed ahead of it.
pub proof fn claimable_row_is_dispatched(
    m: Map<i64, Row>,
    id: i64,
    since: i64,
    steps: Seq<(u64, i64)>,
)
    requires
        rows_valid(m),
        m.contains_key(id),
        claimable(m[id], since as int),
        forall|k: int| 0 <= k < steps.len() ==> (#[trigger] steps[k]).1 >= since,
        steps.len() > ahead_of(m, id).len(),
    ensures
        after_claims(m, steps).contains_key(id),
        after_claims(m, steps)[id].locked_by is Some,
    decreases steps.len(),
{
    let txn = steps[0].0;
    let now = steps[0].1 as int;
    let rest = steps.drop_first();
    let m1 = claim_spec(m, txn, now);
    lemma_least_claimable(m, id, now);
    let c = next_claimable(m, now).unwrap();
    if c == id {
        lemma_claims_keep_locks(m1, id, rest);
    } else {
        assert(m1.dom() =~= m.dom());
        assert(ahead_of(m, id).contains(c));
        assert(ahead_of(m1, id) =~= ahead_of(m, id).remove(c));
        m.dom().lemma_len_filter(|j: i64| j < id && m[j].locked_by is None && !failed(m[j]));
        assert forall|j: i64| #[trigger] m1.contains_key(j) implies row_valid(j, m1[j]) by {
            assert(m.contains_key(j));
        }
        assert forall|k: int| 0 <= k < rest.len() implies (#[trigger] rest[k]).1 >= since by {
            assert(rest[k] == steps[k + 1]);
        }
        claimable_row_is_dispatched(m1, id, since, rest);
    }
}

} // verus!
