//! The job table: the rows of the queue, the row locks that transactions
//! hold on them, and the four statements by which workers claim and finalize
//! jobs.
//!
//! A write made inside a transaction is staged on the row it locks and
//! becomes visible, together with the release of the lock, when the
//! transaction commits.

use crate::errors::StorageError;
use vstd::prelude::*;
use vstd::string::StringExecFns;

verus! {

/// `serde_json::Value`, the payload of a job. The library carries it from the
/// row to the performer and never looks inside.
#[verifier::external_type_specification]
#[verifier::external_body]
pub struct ExJsonValue(serde_json::Value);

/// A row that has been retried this many times counts as failed and is no
/// longer handed to workers.
pub const MAX_RETRIES: i32 = 5;

/// How many seconds before its creation a new row claims to have been retried
/// last, so that it is eligible at once.
pub const INITIAL_RETRY_AGE: i64 = 31_536_000;

/// A job as a worker receives it.
#[derive(Debug, PartialEq)]
pub struct BackgroundJob {
    pub id: i64,
    pub job_type: String,
    pub data: serde_json::Value,
}

/// The write that the transaction holding a row's lock has made to the row and
/// not yet committed.
pub enum Staged {
    Nothing,
    Delete,
    Update { retries: i32, last_retry_at: i64 },
}

/// One row of the queue. The fields up to `created_at` are the committed
/// state, which is what every other transaction sees.
pub struct Row {
    pub id: i64,
    pub job_type: String,
    pub data: serde_json::Value,
    pub retries: i32,
    pub last_retry_at: i64,
    pub created_at: i64,
    pub locked_by: Option<u64>,
    pub staged: Staged,
}

/// Seconds that must have passed since the last attempt before a row that was
/// retried `retries` times is run again: one minute, doubled with each retry.
pub open spec fn backoff(retries: int) -> int
    decreases retries,
{
    if retries <= 0 {
        60
    } else {
        2 * backoff(retries - 1)
    }
}

/// The row's backoff has elapsed at time `now`.
pub open spec fn eligible(row: Row, now: int) -> bool {
    row.last_retry_at + backoff(row.retries as int) <= now
}

/// The row has used up its retries.
pub open spec fn failed(row: Row) -> bool {
    row.retries >= MAX_RETRIES
}

/// A claim made at time `now` may return the row: it is eligible, has retries
/// left and no transaction holds its lock. A lock held by the asking
/// transaction itself counts as a lock.
pub open spec fn claimable(row: Row, now: int) -> bool {
    eligible(row, now) && !failed(row) && row.locked_by is None
}

/// The state of a row as the transaction `txn` sees it: with its own staged
/// write applied, and without anyone else's. `None` where `txn` has deleted it.
pub open spec fn visible_to(row: Row, txn: u64) -> Option<Row> {
    if row.locked_by == Some(txn) {
        match row.staged {
            Staged::Nothing => Some(row),
            Staged::Delete => None,
            Staged::Update { retries, last_retry_at } => Some(
                Row { retries, last_retry_at, ..row },
            ),
        }
    } else {
        Some(Row { staged: Staged::Nothing, ..row })
    }
}

pub open spec fn row_valid(id: i64, row: Row) -> bool {
    &&& row.id == id
    &&& row.retries >= 0
    &&& (row.locked_by is None ==> row.staged is Nothing)
    &&& (row.staged matches Staged::Update { retries, .. } ==> retries >= 0)
}

/// What holds of every table: finitely many rows, each filed under its own
/// id, no negative retry count, and no staged write without a lock.
pub open spec fn rows_valid(m: Map<i64, Row>) -> bool {
    &&& m.dom().finite()
    &&& forall|id: i64| #[trigger] m.contains_key(id) ==> row_valid(id, m[id])
}

/// The row that `enqueue` files under `id` at time `now`.
pub open spec fn fresh_row(id: i64, job_type: String, data: serde_json::Value, now: i64) -> Row {
    Row {
        id,
        job_type,
        data,
        retries: 0,
        last_retry_at: if now - INITIAL_RETRY_AGE >= i64::MIN {
            (now - INITIAL_RETRY_AGE) as i64
        } else {
            i64::MIN
        },
        created_at: now,
        locked_by: None,
        staged: Staged::Nothing,
    }
}

/// The job that a claim of `row` hands to the worker.
pub open spec fn job_of(row: Row) -> BackgroundJob {
    BackgroundJob { id: row.id, job_type: row.job_type, data: row.data }
}

/// `id` is the claimable row with the least id.
pub open spec fn is_next_claimable(m: Map<i64, Row>, id: i64, now: int) -> bool {
    &&& m.contains_key(id)
    &&& claimable(m[id], now)
    &&& forall|j: i64| #[trigger] m.contains_key(j) && claimable(m[j], now) ==> id <= j
}

/// The row that a claim made at time `now` returns, if there is one.
pub open spec fn next_claimable(m: Map<i64, Row>, now: int) -> Option<i64> {
    if exists|id: i64| is_next_claimable(m, id, now) {
        Some(choose|id: i64| is_next_claimable(m, id, now))
    } else {
        None
    }
}

/// What a claim made at time `now` answers: the job of the claimable row with
/// the least id, or `NotFound` where no row is claimable.
pub open spec fn claim_answer(m: Map<i64, Row>, now: int) -> Result<BackgroundJob, StorageError> {
    match next_claimable(m, now) {
        Some(id) => Ok(job_of(m[id])),
        None => Err(StorageError::NotFound),
    }
}

/// The table after the transaction `txn` has made a claim at time `now`: the
/// returned row, if any, is locked by `txn`; nothing else changes.
pub open spec fn claim_spec(m: Map<i64, Row>, txn: u64, now: int) -> Map<i64, Row> {
    match next_claimable(m, now) {
        Some(id) => m.insert(id, Row { locked_by: Some(txn), ..m[id] }),
        None => m,
    }
}

/// How a write by `txn` to the row `id` fares.
pub enum Access {
    /// The row is there for `txn` to see and its lock is free or held by `txn`.
    Granted,
    /// There is no such row, or `txn` has itself deleted it.
    Missing,
    /// Another transaction holds the lock.
    Locked,
}

pub open spec fn access(m: Map<i64, Row>, txn: u64, id: i64) -> Access {
    if !m.contains_key(id) {
        Access::Missing
    } else if m[id].locked_by is Some && m[id].locked_by != Some(txn) {
        Access::Locked
    } else if visible_to(m[id], txn) is None {
        Access::Missing
    } else {
        Access::Granted
    }
}

/// The table after `txn` has asked to delete the row `id`: where access is
/// granted the row is locked by `txn` and its deletion staged.
pub open spec fn delete_spec(m: Map<i64, Row>, txn: u64, id: i64) -> Map<i64, Row> {
    if access(m, txn, id) is Granted {
        m.insert(id, Row { locked_by: Some(txn), staged: Staged::Delete, ..m[id] })
    } else {
        m
    }
}

/// Whether `txn` can record one more failed attempt on the row `id`: access
/// is granted and the retry count that `txn` sees can still grow.
pub open spec fn can_retry(m: Map<i64, Row>, txn: u64, id: i64) -> bool {
    access(m, txn, id) is Granted && visible_to(m[id], txn).unwrap().retries < i32::MAX
}

/// The table after `txn` has recorded a failed attempt on the row `id` at
/// time `now`: where that can be done the row is locked by `txn`, and a retry
/// count one higher than `txn` saw, with `now` as the time of the last
/// attempt, is staged.
pub open spec fn update_spec(m: Map<i64, Row>, txn: u64, id: i64, now: i64) -> Map<i64, Row> {
    if can_retry(m, txn, id) {
        m.insert(
            id,
            Row {
                locked_by: Some(txn),
                staged: Staged::Update {
                    retries: (visible_to(m[id], txn).unwrap().retries + 1) as i32,
                    last_retry_at: now,
                },
                ..m[id]
            },
        )
    } else {
        m
    }
}

/// What becomes of a row when the transaction `txn` ends. A row that `txn`
/// has not locked stays as it is. One that it has locked is unlocked: on
/// commit with its staged write applied (`None` where that write deletes it),
/// on rollback with the staged write dropped.
pub open spec fn settle(row: Row, txn: u64, commit: bool) -> Option<Row> {
    if row.locked_by != Some(txn) {
        Some(row)
    } else if !commit {
        Some(Row { locked_by: None, staged: Staged::Nothing, ..row })
    } else {
        match row.staged {
            Staged::Nothing => Some(Row { locked_by: None, ..row }),
            Staged::Delete => None,
            Staged::Update { retries, last_retry_at } => Some(
                Row { retries, last_retry_at, locked_by: None, staged: Staged::Nothing, ..row },
            ),
        }
    }
}

/// The table after the transaction `txn` has ended, by commit or by rollback:
/// every row settled.
pub open spec fn end_spec(m: Map<i64, Row>, txn: u64, commit: bool) -> Map<i64, Row> {
    Map::new(
        |id: i64| m.contains_key(id) && settle(m[id], txn, commit) is Some,
        |id: i64| settle(m[id], txn, commit).unwrap(),
    )
}

/// The ids of the rows that have used up their retries.
pub open spec fn failed_ids(m: Map<i64, Row>) -> Set<i64> {
    m.dom().filter(|id: i64| failed(m[id]))
}

/// The row is among those that a locking read for the given retry count
/// selects; without a count the read selects every row.
pub open spec fn selected(row: Row, retries: Option<i32>) -> bool {
    match retries {
        Some(count) => row.retries == count,
        None => true,
    }
}

/// A locking read by `txn` has to wait: a row that it selects is locked by
/// another transaction.
pub open spec fn blocks(m: Map<i64, Row>, txn: u64, retries: Option<i32>) -> bool {
    exists|id: i64| #[trigger]
        m.contains_key(id) && m[id].locked_by is Some && m[id].locked_by != Some(txn)
            && selected(m[id], retries)
}

/// The locking read by `txn` returns and locks the row.
pub open spec fn lock_target(row: Row, txn: u64, retries: Option<i32>) -> bool {
    visible_to(row, txn) matches Some(seen) && selected(seen, retries)
}

/// The table after a locking read by `txn`: unchanged where the read has to
/// wait, else with every selected row locked by `txn`.
pub open spec fn lock_rows_spec(m: Map<i64, Row>, txn: u64, retries: Option<i32>) -> Map<
    i64,
    Row,
> {
    if blocks(m, txn, retries) {
        m
    } else {
        Map::new(
            |id: i64| m.contains_key(id),
            |id: i64|
                if lock_target(m[id], txn, retries) {
                    Row { locked_by: Some(txn), ..m[id] }
                } else {
                    m[id]
                },
        )
    }
}

spec fn has_row(rows: Seq<Row>, id: i64) -> bool {
    exists|i: int| 0 <= i < rows.len() && #[trigger] rows[i].id == id
}

spec fn position(rows: Seq<Row>, id: i64) -> int {
    choose|i: int| 0 <= i < rows.len() && #[trigger] rows[i].id == id
}

spec fn ascending(rows: Seq<Row>) -> bool {
    forall|i: int, j: int| 0 <= i < j < rows.len() ==> #[trigger] rows[i].id < #[trigger] rows[j].id
}

spec fn table_of(rows: Seq<Row>) -> Map<i64, Row> {
    Map::new(|id: i64| has_row(rows, id), |id: i64| rows[position(rows, id)])
}

proof fn lemma_position(rows: Seq<Row>, i: int)
    requires
        ascending(rows),
        0 <= i < rows.len(),
    ensures
        has_row(rows, rows[i].id),
        position(rows, rows[i].id) == i,
        table_of(rows).contains_key(rows[i].id),
        table_of(rows)[rows[i].id] == rows[i],
{
    let p = position(rows, rows[i].id);
    assert(0 <= p < rows.len() && rows[p].id == rows[i].id);
    if p < i {
        assert(rows[p].id < rows[i].id);
    } else if i < p {
        assert(rows[i].id < rows[p].id);
    }
}

proof fn lemma_absent(rows: Seq<Row>, id: i64)
    requires
        forall|i: int| 0 <= i < rows.len() ==> #[trigger] rows[i].id != id,
    ensures
        !table_of(rows).contains_key(id),
{
}

proof fn lemma_update_row(rows: Seq<Row>, i: int, row: Row)
    requires
        ascending(rows),
        0 <= i < rows.len(),
        row.id == rows[i].id,
    ensures
        ascending(rows.update(i, row)),
        table_of(rows.update(i, row)) == table_of(rows).insert(row.id, row),
{
    let after = rows.update(i, row);
    assert forall|a: int, b: int| 0 <= a < b < after.len() implies #[trigger] after[a].id
        < #[trigger] after[b].id by {
        assert(rows[a].id < rows[b].id);
    }
    assert forall|k: i64| #[trigger]
        table_of(after).contains_key(k) <==> table_of(rows).insert(row.id, row).contains_key(
            k,
        ) by {
        if has_row(after, k) {
            let p = position(after, k);
            assert(rows[p].id == k);
        }
        if has_row(rows, k) {
            let p = position(rows, k);
            assert(after[p].id == k);
        }
        if k == row.id {
            assert(after[i].id == k);
        }
    }
    assert forall|k: i64| #[trigger] table_of(after).contains_key(k) implies table_of(after)[k]
        == table_of(rows).insert(row.id, row)[k] by {
        let p = position(after, k);
        lemma_position(after, p);
        lemma_position(rows, p);
    }
    assert(table_of(after) =~= table_of(rows).insert(row.id, row));
}

proof fn lemma_remove_row(rows: Seq<Row>, i: int)
    requires
        ascending(rows),
        0 <= i < rows.len(),
    ensures
        ascending(rows.remove(i)),
        table_of(rows.remove(i)) == table_of(rows).remove(rows[i].id),
{
    let after = rows.remove(i);
    assert forall|a: int, b: int| 0 <= a < b < after.len() implies #[trigger] after[a].id
        < #[trigger] after[b].id by {
        let a0 = if a < i { a } else { a + 1 };
        let b0 = if b < i { b } else { b + 1 };
        assert(rows[a0].id < rows[b0].id);
    }
    assert forall|k: i64| #[trigger]
        table_of(after).contains_key(k) <==> table_of(rows).remove(rows[i].id).contains_key(
            k,
        ) by {
        if has_row(after, k) {
            let p = position(after, k);
            let source = if p < i { p } else { p + 1 };
            assert(rows[source].id == k);
            if source < i {
                assert(rows[source].id < rows[i].id);
            } else {
                assert(rows[i].id < rows[source].id);
            }
        }
        if has_row(rows, k) && k != rows[i].id {
            let p = position(rows, k);
            let target = if p < i { p } else { p - 1 };
            assert(after[target].id == k);
        }
    }
    assert forall|k: i64| #[trigger] table_of(after).contains_key(k) implies table_of(after)[k]
        == table_of(rows).remove(rows[i].id)[k] by {
        let p = position(after, k);
        lemma_position(after, p);
        let source = if p < i { p } else { p + 1 };
        lemma_position(rows, source);
    }
    assert(table_of(after) =~= table_of(rows).remove(rows[i].id));
}

/// The id below which a pass over the rows has already been: that of the
/// row at the cursor, or the next id to be given out once the pass is through.
spec fn bound(rows: Seq<Row>, i: int, next_id: i64) -> int {
    if i < rows.len() {
        rows[i].id as int
    } else {
        next_id as int
    }
}

fn locked_by(row: &Row, txn: u64) -> (b: bool)
    ensures
        b == (row.locked_by == Some(txn)),
{
    match row.locked_by {
        Some(holder) => holder == txn,
        None => false,
    }
}

spec fn failed_below(m: Map<i64, Row>, b: int) -> Set<i64> {
    m.dom().filter(|id: i64| id < b && failed(m[id]))
}

proof fn lemma_id_floor(rows: Seq<Row>, i: int)
    requires
        ascending(rows),
        0 <= i < rows.len(),
        rows[0].id >= 1,
    ensures
        rows[i].id >= i + 1,
    decreases i,
{
    if i > 0 {
        lemma_id_floor(rows, i - 1);
        assert(rows[i - 1].id < rows[i].id);
    }
}

fn is_selected(count: i32, retries: &Option<i32>) -> (b: bool)
    ensures
        b == match *retries {
            Some(wanted) => count == wanted,
            None => true,
        },
{
    match retries {
        Some(wanted) => count == *wanted,
        None => true,
    }
}

fn is_lock_target(row: &Row, txn: u64, retries: &Option<i32>) -> (b: bool)
    ensures
        b == lock_target(*row, txn, *retries),
{
    if locked_by(row, txn) {
        match row.staged {
            Staged::Nothing => is_selected(row.retries, retries),
            Staged::Delete => false,
            Staged::Update { retries: staged, .. } => is_selected(staged, retries),
        }
    } else {
        is_selected(row.retries, retries)
    }
}

fn backoff_seconds(retries: i32) -> (seconds: i64)
    requires
        0 <= retries < MAX_RETRIES,
    ensures
        seconds == backoff(retries as int),
{
    proof {
        reveal_with_fuel(backoff, 6);
    }
    if retries == 0 {
        60
    } else if retries == 1 {
        120
    } else if retries == 2 {
        240
    } else if retries == 3 {
        480
    } else {
        960
    }
}

fn is_claimable(row: &Row, now: i64) -> (b: bool)
    requires
        row.retries >= 0,
    ensures
        b == claimable(*row, now as int),
{
    if row.retries >= MAX_RETRIES || row.locked_by.is_some() {
        return false;
    }
    let wait = backoff_seconds(row.retries);
    (row.last_retry_at as i128) + (wait as i128) <= (now as i128)
}

fn locked_by_other(row: &Row, txn: u64) -> (b: bool)
    ensures
        b == (row.locked_by is Some && row.locked_by != Some(txn)),
{
    match row.locked_by {
        Some(holder) => holder != txn,
        None => false,
    }
}

fn is_staged_delete(row: &Row) -> (b: bool)
    ensures
        b == (row.staged is Delete),
{
    match row.staged {
        Staged::Delete => true,
        _ => false,
    }
}

/// The queue: its rows in the order of their ids, and the id that the next
/// new row gets.
pub struct JobTable {
    rows: Vec<Row>,
    next_id: i64,
}

impl View for JobTable {
    type V = Map<i64, Row>;

    closed spec fn view(&self) -> Map<i64, Row> {
        table_of(self.rows@)
    }
}

/// `Clone::clone` of `serde_json::Value`: the copy is a value equal to the
/// one that was copied.
#[verifier::external_body]
fn copy_json(value: &serde_json::Value) -> (copy: serde_json::Value)
    ensures
        copy == *value,
{
    value.clone()
}

impl JobTable {
    /// The rows are stored by ascending id, ids start at 1 and stay below the
    /// next id to be given out, and every row is valid.
    pub closed spec fn wf(&self) -> bool {
        &&& self.next_id >= 1
        &&& ascending(self.rows@)
        &&& forall|i: int|
            0 <= i < self.rows@.len() ==> 1 <= (#[trigger] self.rows@[i]).id < self.next_id
        &&& forall|i: int|
            0 <= i < self.rows@.len() ==> row_valid(self.rows@[i].id, #[trigger] self.rows@[i])
    }

    /// The id that the next new row gets.
    pub closed spec fn next_id(&self) -> i64 {
        self.next_id
    }

    /// A well-formed table holds valid rows, all of them with ids from 1 up
    /// to, and not including, the next id.
    pub proof fn lemma_valid(&self)
        requires
            self.wf(),
        ensures
            rows_valid(self@),
            forall|id: i64| #[trigger] self@.contains_key(id) ==> 1 <= id < self.next_id(),
    {
        lemma_count(self.rows@);
        assert forall|id: i64| #[trigger] self@.contains_key(id) implies row_valid(
            id,
            self@[id],
        ) && 1 <= id < self.next_id() by {
            let i = position(self.rows@, id);
            assert(self.rows@[i].id == id);
        }
    }

    /// An empty queue.
    pub fn new() -> (table: JobTable)
        ensures
            table.wf(),
            table@ == Map::<i64, Row>::empty(),
            table.next_id() == 1,
    {
        let table = JobTable { rows: Vec::new(), next_id: 1 };
        assert(table@ =~= Map::<i64, Row>::empty());
        table
    }

    /// Adds a job of the given type at time `now` and returns its id. The new
    /// row gets the next id, has never been retried and is unlocked. Fails,
    /// changing nothing, only when the ids are used up.
    pub fn enqueue(&mut self, job_type: String, data: serde_json::Value, now: i64) -> (r: Result<
        i64,
        StorageError,
    >)
        requires
            old(self).wf(),
        ensures
            final(self).wf(),
            old(self).next_id() < i64::MAX ==> r == Ok::<i64, StorageError>(old(self).next_id())
                && final(self).next_id() == old(self).next_id() + 1 && final(self)@ == old(
                self,
            )@.insert(
                old(self).next_id(),
                fresh_row(old(self).next_id(), job_type, data, now),
            ),
            old(self).next_id() == i64::MAX ==> (r matches Err(StorageError::Database(_)))
                && *final(self) == *old(self),
    {
        if self.next_id == i64::MAX {
            return Err(StorageError::Database(String::from_str("job id sequence is used up")));
        }
        let id = self.next_id;
        let last_retry_at = if now >= i64::MIN + INITIAL_RETRY_AGE {
            now - INITIAL_RETRY_AGE
        } else {
            i64::MIN
        };
        let row = Row {
            id,
            job_type,
            data,
            retries: 0,
            last_retry_at,
            created_at: now,
            locked_by: None,
            staged: Staged::Nothing,
        };
        self.rows.push(row);
        self.next_id = id + 1;
        proof {
            let before = old(self).rows@;
            let after = self.rows@;
            assert(after == before.push(row));
            assert forall|i: int, j: int| 0 <= i < j < after.len() implies #[trigger] after[i].id
                < #[trigger] after[j].id by {
                if j < before.len() {
                    assert(before[i].id < before[j].id);
                } else {
                    assert(before[i].id < id);
                }
            }
            assert forall|k: i64| #[trigger]
                self@.contains_key(k) <==> old(self)@.insert(id, row).contains_key(k) by {
                if has_row(after, k) {
                    let i = position(after, k);
                    if i < before.len() {
                        assert(before[i].id == k);
                    }
                }
                if has_row(before, k) {
                    let i = position(before, k);
                    assert(after[i].id == k);
                }
                if k == id {
                    assert(after[after.len() - 1].id == k);
                }
            }
            assert forall|k: i64| #[trigger] self@.contains_key(k) implies self@[k] == old(
                self,
            )@.insert(id, row)[k] by {
                let i = position(after, k);
                lemma_position(after, i);
                if i < before.len() {
                    lemma_position(before, i);
                }
            }
            assert(self@ =~= old(self)@.insert(id, row));
        }
        Ok(id)
    }

    /// Returns the claimable row with the least id and locks it for `txn`
    /// for as long as that transaction is open. Rows that are locked are
    /// passed over, never waited for. Where no row is claimable the answer is
    /// `NotFound` and nothing changes.
    pub fn find_next_unlocked_job(&mut self, txn: u64, now: i64) -> (r: Result<
        BackgroundJob,
        StorageError,
    >)
        requires
            old(self).wf(),
        ensures
            final(self).wf(),
            final(self).next_id() == old(self).next_id(),
            final(self)@ == claim_spec(old(self)@, txn, now as int),
            r == claim_answer(old(self)@, now as int),
    {
        let mut i: usize = 0;
        while i < self.rows.len()
            invariant
                *self == *old(self),
                self.wf(),
                i <= self.rows@.len(),
                forall|k: int| 0 <= k < i ==> !claimable(#[trigger] self.rows@[k], now as int),
            decreases self.rows@.len() - i,
        {
            if is_claimable(&self.rows[i], now) {
                let job = BackgroundJob {
                    id: self.rows[i].id,
                    job_type: self.rows[i].job_type.clone(),
                    data: copy_json(&self.rows[i].data),
                };
                self.rows[i].locked_by = Some(txn);
                proof {
                    let before = old(self).rows@;
                    let id = before[i as int].id;
                    lemma_position(before, i as int);
                    assert forall|j: i64| #[trigger]
                        old(self)@.contains_key(j) && claimable(
                            old(self)@[j],
                            now as int,
                        ) implies id <= j by {
                        let p = position(before, j);
                        lemma_position(before, p);
                        if p < i {
                            assert(!claimable(before[p], now as int));
                        } else if p > i {
                            assert(before[i as int].id < before[p].id);
                        }
                    }
                    assert(is_next_claimable(old(self)@, id, now as int));
                    let c = choose|c: i64| is_next_claimable(old(self)@, c, now as int);
                    assert(id <= c && c <= id);
                    lemma_update_row(before, i as int, self.rows@[i as int]);
                    assert(self.rows@ =~= before.update(i as int, self.rows@[i as int]));
                    assert(job.job_type == before[i as int].job_type);
                }
                return Ok(job);
            }
            i += 1;
        }
        proof {
            assert forall|id: i64| !is_next_claimable(self@, id, now as int) by {
                if self@.contains_key(id) {
                    let p = position(self.rows@, id);
                    lemma_position(self.rows@, p);
                }
            }
        }
        Err(StorageError::NotFound)
    }

    fn index_of(&self, id: i64) -> (at: Option<usize>)
        requires
            self.wf(),
        ensures
            match at {
                Some(i) => i < self.rows@.len() && self.rows@[i as int].id == id
                    && self@.contains_key(id) && self@[id] == self.rows@[i as int],
                None => !self@.contains_key(id),
            },
    {
        let mut i: usize = 0;
        while i < self.rows.len()
            invariant
                self.wf(),
                i <= self.rows@.len(),
                forall|k: int| 0 <= k < i ==> (#[trigger] self.rows@[k]).id != id,
            decreases self.rows@.len() - i,
        {
            if self.rows[i].id == id {
                proof {
                    lemma_position(self.rows@, i as int);
                }
                return Some(i);
            }
            i += 1;
        }
        proof {
            lemma_absent(self.rows@, id);
        }
        None
    }

    /// Deletes the row `id` on behalf of `txn`: the deletion is staged and the
    /// row locked until `txn` ends. Fails with `NotFound` where there is no
    /// such row for `txn` to see, and with a database error where another
    /// transaction holds the row's lock; a failure changes nothing.
    pub fn delete_successful_job(&mut self, txn: u64, id: i64) -> (r: Result<(), StorageError>)
        requires
            old(self).wf(),
        ensures
            final(self).wf(),
            final(self).next_id() == old(self).next_id(),
            final(self)@ == delete_spec(old(self)@, txn, id),
            match access(old(self)@, txn, id) {
                Access::Granted => r is Ok,
                Access::Missing => r == Err::<(), StorageError>(StorageError::NotFound),
                Access::Locked => r matches Err(StorageError::Database(_)),
            },
    {
        match self.index_of(id) {
            None => Err(StorageError::NotFound),
            Some(i) => {
                if locked_by_other(&self.rows[i], txn) {
                    return Err(
                        StorageError::Database(String::from_str("could not obtain lock on row")),
                    );
                }
                if is_staged_delete(&self.rows[i]) {
                    return Err(StorageError::NotFound);
                }
                self.rows[i].locked_by = Some(txn);
                self.rows[i].staged = Staged::Delete;
                proof {
                    lemma_update_row(old(self).rows@, i as int, self.rows@[i as int]);
                    assert(self.rows@ =~= old(self).rows@.update(i as int, self.rows@[i as int]));
                }
                Ok(())
            },
        }
    }

    /// Records a failed attempt on the row `id` on behalf of `txn` at time
    /// `now`: a retry count one higher, and `now` as the time of the last
    /// attempt, are staged and the row is locked until `txn` ends. Where there
    /// is no such row for `txn` to see, nothing is updated and the statement
    /// succeeds. Fails, changing nothing, where another transaction holds the
    /// row's lock or the retry count cannot grow.
    pub fn update_failed_job(&mut self, txn: u64, id: i64, now: i64) -> (r: Result<
        (),
        StorageError,
    >)
        requires
            old(self).wf(),
        ensures
            final(self).wf(),
            final(self).next_id() == old(self).next_id(),
            final(self)@ == update_spec(old(self)@, txn, id, now),
            match access(old(self)@, txn, id) {
                Access::Granted => if can_retry(old(self)@, txn, id) {
                    r is Ok
                } else {
                    r matches Err(StorageError::Database(_))
                },
                Access::Missing => r is Ok,
                Access::Locked => r matches Err(StorageError::Database(_)),
            },
    {
        match self.index_of(id) {
            None => Ok(()),
            Some(i) => {
                if locked_by_other(&self.rows[i], txn) {
                    return Err(
                        StorageError::Database(String::from_str("could not obtain lock on row")),
                    );
                }
                let seen: i32 = match self.rows[i].staged {
                    Staged::Nothing => self.rows[i].retries,
                    Staged::Delete => {
                        return Ok(());
                    },
                    Staged::Update { retries, .. } => retries,
                };
                if seen == i32::MAX {
                    return Err(StorageError::Database(String::from_str("integer out of range")));
                }
                self.rows[i].locked_by = Some(txn);
                self.rows[i].staged = Staged::Update { retries: seen + 1, last_retry_at: now };
                proof {
                    lemma_update_row(old(self).rows@, i as int, self.rows@[i as int]);
                    assert(self.rows@ =~= old(self).rows@.update(i as int, self.rows@[i as int]));
                }
                Ok(())
            },
        }
    }

    fn end_transaction(&mut self, txn: u64, commit: bool)
        requires
            old(self).wf(),
        ensures
            final(self).wf(),
            final(self).next_id() == old(self).next_id(),
            final(self)@ == end_spec(old(self)@, txn, commit),
    {
        let ghost before = self@;
        proof {
            self.lemma_valid();
        }
        let mut i: usize = 0;
        while i < self.rows.len()
            invariant
                self.wf(),
                self.next_id == old(self).next_id,
                before == old(self)@,
                rows_valid(before),
                forall|id: i64| #[trigger] before.contains_key(id) ==> 1 <= id < self.next_id,
                i <= self.rows@.len(),
                forall|id: i64| #[trigger]
                    self@.contains_key(id) ==> before.contains_key(id) && (id < bound(
                        self.rows@,
                        i as int,
                        self.next_id,
                    ) ==> settle(before[id], txn, commit) == Some(self@[id])) && (id >= bound(
                        self.rows@,
                        i as int,
                        self.next_id,
                    ) ==> self@[id] == before[id]),
                forall|id: i64| #[trigger]
                    before.contains_key(id) && (id < bound(
                        self.rows@,
                        i as int,
                        self.next_id,
                    ) ==> settle(before[id], txn, commit) is Some) ==> self@.contains_key(id),
            decreases self.rows@.len() - i,
        {
            let ghost table = self@;
            let ghost rows = self.rows@;
            let ghost b = rows[i as int].id;
            proof {
                lemma_position(rows, i as int);
            }
            if !locked_by(&self.rows[i], txn) {
                i += 1;
                proof {
                    let b2 = bound(rows, i as int, self.next_id);
                    assert(b < b2) by {
                        if i < rows.len() {
                            assert(rows[i - 1].id < rows[i as int].id);
                        }
                    }
                    assert forall|id: i64| b < id < b2 implies !table.contains_key(id) by {
                        if table.contains_key(id) {
                            let p = position(rows, id);
                            lemma_position(rows, p);
                            if p < i - 1 {
                                assert(rows[p].id < rows[i - 1].id);
                            } else if p > i - 1 {
                                if p > i {
                                    assert(rows[i as int].id < rows[p].id);
                                }
                            }
                        }
                    }
                }
            } else if commit && is_staged_delete(&self.rows[i]) {
                self.rows.remove(i);
                proof {
                    lemma_remove_row(rows, i as int);
                    let b2 = bound(self.rows@, i as int, self.next_id);
                    assert(b < b2) by {
                        if i < self.rows@.len() {
                            assert(rows[i as int].id < rows[i + 1].id);
                        }
                    }
                    assert forall|id: i64| b < id < b2 implies !table.contains_key(id) by {
                        if table.contains_key(id) {
                            let p = position(rows, id);
                            lemma_position(rows, p);
                            if p < i {
                                assert(rows[p].id < rows[i as int].id);
                            } else if p > i + 1 {
                                assert(rows[i + 1].id < rows[p].id);
                            }
                        }
                    }
                    assert forall|k: int| 0 <= k < self.rows@.len() implies 1 <= (
                    #[trigger] self.rows@[k]).id < self.next_id && row_valid(
                        self.rows@[k].id,
                        self.rows@[k],
                    ) by {
                        let k0 = if k < i { k } else { k + 1 };
                        assert(self.rows@[k] == rows[k0]);
                    }
                }
            } else {
                if commit {
                    match self.rows[i].staged {
                        Staged::Update { retries, last_retry_at } => {
                            self.rows[i].retries = retries;
                            self.rows[i].last_retry_at = last_retry_at;
                        },
                        _ => {},
                    }
                }
                self.rows[i].locked_by = None;
                self.rows[i].staged = Staged::Nothing;
                proof {
                    lemma_update_row(rows, i as int, self.rows@[i as int]);
                    assert(self.rows@ =~= rows.update(i as int, self.rows@[i as int]));
                    assert(settle(before[b], txn, commit) == Some(self.rows@[i as int]));
                }
                i += 1;
                proof {
                    let b2 = bound(self.rows@, i as int, self.next_id);
                    assert(b < b2) by {
                        if i < rows.len() {
                            assert(rows[i - 1].id < rows[i as int].id);
                        }
                    }
                    assert forall|id: i64| b < id < b2 implies !table.contains_key(id) by {
                        if table.contains_key(id) {
                            let p = position(rows, id);
                            lemma_position(rows, p);
                            if p < i - 1 {
                                assert(rows[p].id < rows[i - 1].id);
                            } else if p > i {
                                assert(rows[i as int].id < rows[p].id);
                            }
                        }
                    }
                }
            }
        }
        assert(self@ =~= end_spec(before, txn, commit));
    }

    /// Ends the transaction `txn` and makes its writes take effect: every row
    /// that it has locked is unlocked, with the staged write applied in the
    /// same step.
    pub fn commit(&mut self, txn: u64)
        requires
            old(self).wf(),
        ensures
            final(self).wf(),
            final(self).next_id() == old(self).next_id(),
            final(self)@ == end_spec(old(self)@, txn, true),
    {
        self.end_transaction(txn, true)
    }

    /// Ends the transaction `txn` and drops its writes: every row that it has
    /// locked is unlocked and keeps its committed state.
    pub fn rollback(&mut self, txn: u64)
        requires
            old(self).wf(),
        ensures
            final(self).wf(),
            final(self).next_id() == old(self).next_id(),
            final(self)@ == end_spec(old(self)@, txn, false),
    {
        self.end_transaction(txn, false)
    }

    /// The number of rows that have used up their retries, by their committed
    /// state.
    pub fn failed_job_count(&self) -> (n: i64)
        requires
            self.wf(),
        ensures
            n == failed_ids(self@).len(),
    {
        proof {
            self.lemma_valid();
        }
        let mut count: i64 = 0;
        let mut i: usize = 0;
        proof {
            assert forall|id: i64| #[trigger] self@.contains_key(id) implies id >= bound(
                self.rows@,
                0,
                self.next_id,
            ) by {
                let p = position(self.rows@, id);
                lemma_position(self.rows@, p);
                if p > 0 {
                    assert(self.rows@[0].id < self.rows@[p].id);
                }
            }
            assert(failed_below(self@, bound(self.rows@, 0, self.next_id)) =~= Set::<
                i64,
            >::empty());
        }
        while i < self.rows.len()
            invariant
                self.wf(),
                rows_valid(self@),
                forall|id: i64| #[trigger] self@.contains_key(id) ==> 1 <= id < self.next_id,
                i <= self.rows@.len(),
                0 <= count <= i,
                failed_below(self@, bound(self.rows@, i as int, self.next_id)).finite(),
                count == failed_below(self@, bound(self.rows@, i as int, self.next_id)).len(),
            decreases self.rows@.len() - i,
        {
            let ghost rows = self.rows@;
            let ghost b = rows[i as int].id;
            let ghost seen = failed_below(self@, b as int);
            proof {
                lemma_position(rows, i as int);
                lemma_id_floor(rows, i as int);
            }
            let is_failed = self.rows[i].retries >= MAX_RETRIES;
            if is_failed {
                count += 1;
            }
            i += 1;
            proof {
                let b2 = bound(rows, i as int, self.next_id);
                assert(b < b2) by {
                    if i < rows.len() {
                        assert(rows[i - 1].id < rows[i as int].id);
                    }
                }
                assert forall|id: i64| b < id < b2 implies !self@.contains_key(id) by {
                    if self@.contains_key(id) {
                        let p = position(rows, id);
                        lemma_position(rows, p);
                        if p < i - 1 {
                            assert(rows[p].id < rows[i - 1].id);
                        } else if p > i {
                            assert(rows[i as int].id < rows[p].id);
                        }
                    }
                }
                if is_failed {
                    assert(failed_below(self@, b2) =~= seen.insert(b));
                } else {
                    assert(failed_below(self@, b2) =~= seen);
                }
            }
        }
        assert(failed_below(self@, self.next_id as int) =~= failed_ids(self@));
        count
    }

    /// Selects the rows with the given retry count, or all rows where none is
    /// given, and locks them for `txn`, as a read for update does that waits
    /// for locks instead of passing locked rows over. Where a selected row is
    /// locked by another transaction, the read would wait: the answer is
    /// `None` and nothing changes. Else the answer holds the ids of the rows
    /// that were selected and locked, in ascending order.
    pub fn select_for_update(&mut self, txn: u64, retries: Option<i32>) -> (r: Option<Vec<i64>>)
        requires
            old(self).wf(),
        ensures
            final(self).wf(),
            final(self).next_id() == old(self).next_id(),
            final(self)@ == lock_rows_spec(old(self)@, txn, retries),
            blocks(old(self)@, txn, retries) <==> r is None,
            r matches Some(ids) ==> {
                &&& forall|a: int, b: int| 0 <= a < b < ids@.len() ==> ids@[a] < ids@[b]
                &&& forall|id: i64|
                    ids@.contains(id) <==> old(self)@.contains_key(id) && lock_target(
                        old(self)@[id],
                        txn,
                        retries,
                    )
            },
    {
        let mut k: usize = 0;
        while k < self.rows.len()
            invariant
                *self == *old(self),
                self.wf(),
                k <= self.rows@.len(),
                forall|j: int|
                    0 <= j < k ==> !((#[trigger] self.rows@[j]).locked_by is Some
                        && self.rows@[j].locked_by != Some(txn) && selected(
                        self.rows@[j],
                        retries,
                    )),
            decreases self.rows@.len() - k,
        {
            if locked_by_other(&self.rows[k], txn) && is_selected(self.rows[k].retries, &retries) {
                proof {
                    lemma_position(self.rows@, k as int);
                }
                return None;
            }
            k += 1;
        }
        proof {
            assert forall|id: i64| #[trigger] self@.contains_key(id) implies !(
            self@[id].locked_by is Some && self@[id].locked_by != Some(txn) && selected(
                self@[id],
                retries,
            )) by {
                let p = position(self.rows@, id);
                lemma_position(self.rows@, p);
            }
            self.lemma_valid();
        }
        let ghost before = self@;
        let mut ids: Vec<i64> = Vec::new();
        let mut i: usize = 0;
        while i < self.rows.len()
            invariant
                self.wf(),
                self.next_id == old(self).next_id,
                before == old(self)@,
                forall|id: i64| #[trigger] before.contains_key(id) ==> 1 <= id < self.next_id,
                i <= self.rows@.len(),
                forall|id: i64| #[trigger] self@.contains_key(id) <==> before.contains_key(id),
                forall|id: i64| #[trigger]
                    before.contains_key(id) ==> self@[id] == (if id < bound(
                        self.rows@,
                        i as int,
                        self.next_id,
                    ) && lock_target(before[id], txn, retries) {
                        Row { locked_by: Some(txn), ..before[id] }
                    } else {
                        before[id]
                    }),
                forall|a: int, b: int| 0 <= a < b < ids@.len() ==> ids@[a] < ids@[b],
                forall|a: int|
                    0 <= a < ids@.len() ==> #[trigger] ids@[a] < bound(
                        self.rows@,
                        i as int,
                        self.next_id,
                    ),
                forall|id: i64|
                    ids@.contains(id) <==> before.contains_key(id) && id < bound(
                        self.rows@,
                        i as int,
                        self.next_id,
                    ) && lock_target(before[id], txn, retries),
            decreases self.rows@.len() - i,
        {
            let ghost table = self@;
            let ghost rows = self.rows@;
            let ghost b = rows[i as int].id;
            let ghost chosen = ids@;
            proof {
                lemma_position(rows, i as int);
            }
            let hit = is_lock_target(&self.rows[i], txn, &retries);
            if hit {
                self.rows[i].locked_by = Some(txn);
                ids.push(self.rows[i].id);
                proof {
                    lemma_update_row(rows, i as int, self.rows@[i as int]);
                    assert(self.rows@ =~= rows.update(i as int, self.rows@[i as int]));
                }
            }
            i += 1;
            proof {
                let b2 = bound(self.rows@, i as int, self.next_id);
                assert(b < b2) by {
                    if i < rows.len() {
                        assert(rows[i - 1].id < rows[i as int].id);
                    }
                }
                assert forall|id: i64| b < id < b2 implies !table.contains_key(id) by {
                    if table.contains_key(id) {
                        let p = position(rows, id);
                        lemma_position(rows, p);
                        if p < i - 1 {
                            assert(rows[p].id < rows[i - 1].id);
                        } else if p > i {
                            assert(rows[i as int].id < rows[p].id);
                        }
                    }
                }
                assert forall|id: i64|
                    ids@.contains(id) <==> before.contains_key(id) && id < b2 && lock_target(
                        before[id],
                        txn,
                        retries,
                    ) by {
                    assert(table.contains_key(b));
                    assert(before.contains_key(b));
                    assert(before[b] == rows[i - 1]);
                    assert(hit == lock_target(before[b], txn, retries));
                    assert(chosen.contains(id) <==> before.contains_key(id) && id < b
                        && lock_target(before[id], txn, retries));
                    if b < id < b2 {
                        assert(!table.contains_key(id));
                    }
                    if !hit {
                        assert(ids@ == chosen);
                    }
                    if hit {
                        assert(ids@ == chosen.push(b));
                        assert(ids@[chosen.len() as int] == b);
                        if ids@.contains(id) {
                            let a = choose|a: int| 0 <= a < ids@.len() && ids@[a] == id;
                            if a < chosen.len() {
                                assert(chosen[a] == id);
                                assert(chosen.contains(id));
                            }
                        }
                        if chosen.contains(id) {
                            let a = choose|a: int| 0 <= a < chosen.len() && chosen[a] == id;
                            assert(ids@[a] == id);
                        }
                    }
                }
            }
        }
        assert(self@ =~= lock_rows_spec(before, txn, retries));
        Some(ids)
    }

    /// The committed retry count of the row `id`, if there is such a row.
    pub fn retries_of(&self, id: i64) -> (r: Option<i32>)
        requires
            self.wf(),
        ensures
            r == (if self@.contains_key(id) {
                Some(self@[id].retries)
            } else {
                None
            }),
    {
        match self.index_of(id) {
            Some(i) => Some(self.rows[i].retries),
            None => None,
        }
    }

    /// The committed time of the last attempt on the row `id`, if there is
    /// such a row.
    pub fn last_retry_at_of(&self, id: i64) -> (r: Option<i64>)
        requires
            self.wf(),
        ensures
            r == (if self@.contains_key(id) {
                Some(self@[id].last_retry_at)
            } else {
                None
            }),
    {
        match self.index_of(id) {
            Some(i) => Some(self.rows[i].last_retry_at),
            None => None,
        }
    }

    /// The transaction that holds the lock of the row `id`, if the row is
    /// there and locked.
    pub fn lock_holder(&self, id: i64) -> (r: Option<u64>)
        requires
            self.wf(),
        ensures
            r == (if self@.contains_key(id) {
                self@[id].locked_by
            } else {
                None
            }),
    {
        match self.index_of(id) {
            Some(i) => self.rows[i].locked_by,
            None => None,
        }
    }

    /// The number of rows, failed ones and locked ones included.
    pub fn count(&self) -> (n: usize)
        requires
            self.wf(),
        ensures
            n == self@.dom().len(),
    {
        proof {
            lemma_count(self.rows@);
        }
        self.rows.len()
    }
}

proof fn lemma_count(rows: Seq<Row>)
    requires
        ascending(rows),
    ensures
        table_of(rows).dom().finite(),
        table_of(rows).dom().len() == rows.len(),
    decreases rows.len(),
{
    if rows.len() == 0 {
        assert(table_of(rows).dom() =~= Set::<i64>::empty());
    } else {
        let front = rows.drop_last();
        let last = rows.last();
        lemma_count(front);
        assert forall|id: i64| table_of(rows).dom().contains(id) <==> table_of(
            front,
        ).dom().insert(last.id).contains(id) by {
            if has_row(rows, id) {
                let i = position(rows, id);
                if i < rows.len() - 1 {
                    assert(front[i].id == id);
                }
            }
            if has_row(front, id) {
                let i = position(front, id);
                assert(rows[i].id == id);
            }
            if id == last.id {
                assert(rows[rows.len() - 1].id == id);
            }
        }
        assert(table_of(rows).dom() =~= table_of(front).dom().insert(last.id));
        if has_row(front, last.id) {
            let i = position(front, last.id);
            assert(rows[i].id < rows[rows.len() - 1].id);
        }
    }
}

} // verus!
