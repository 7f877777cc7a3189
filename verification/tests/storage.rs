use serde_json::Value;
use swirl::errors::StorageError;
use swirl::storage::{BackgroundJob, JobTable, INITIAL_RETRY_AGE, MAX_RETRIES};

const NOW: i64 = 1_700_000_000;

fn table_with(jobs: usize) -> JobTable {
    let mut table = JobTable::new();
    for _ in 0..jobs {
        table.enqueue("Foo".to_string(), Value::Null, NOW).unwrap();
    }
    table
}

/// Claims the next job for `txn` at `at`, records a failed attempt at the same time and commits.
fn fail_once(table: &mut JobTable, txn: u64, at: i64) -> i64 {
    let job = table.find_next_unlocked_job(txn, at).unwrap();
    table.update_failed_job(txn, job.id, at).unwrap();
    table.commit(txn);
    job.id
}

#[test]
fn new_table_is_empty() {
    let mut table = JobTable::new();
    assert_eq!(0, table.count());
    assert_eq!(0, table.failed_job_count());
    assert_eq!(Err(StorageError::NotFound), table.find_next_unlocked_job(1, NOW));
    assert_eq!(None, table.retries_of(1));
    assert_eq!(None, table.last_retry_at_of(1));
    assert_eq!(None, table.lock_holder(1));
}

#[test]
fn enqueue_numbers_rows_from_one() {
    let mut table = JobTable::new();
    assert_eq!(Ok(1), table.enqueue("Foo".to_string(), Value::Null, NOW));
    assert_eq!(Ok(2), table.enqueue("Bar".to_string(), Value::Bool(true), NOW + 1));
    assert_eq!(Ok(3), table.enqueue("Foo".to_string(), Value::Null, NOW + 2));
    assert_eq!(3, table.count());
    assert_eq!(Some(0), table.retries_of(2));
    assert_eq!(Some(NOW + 1 - INITIAL_RETRY_AGE), table.last_retry_at_of(2));
    assert_eq!(Some(1_668_464_001), table.last_retry_at_of(2));
    assert_eq!(None, table.lock_holder(2));
    assert_eq!(None, table.retries_of(4));
}

#[test]
fn ids_are_not_given_out_again() {
    let mut table = table_with(2);
    let job = table.find_next_unlocked_job(1, NOW).unwrap();
    table.delete_successful_job(1, job.id).unwrap();
    table.commit(1);
    assert_eq!(Ok(3), table.enqueue("Foo".to_string(), Value::Null, NOW));
}

#[test]
fn a_new_row_is_eligible_at_once() {
    let mut table = table_with(1);
    let job = table.find_next_unlocked_job(1, NOW).unwrap();
    assert_eq!(1, job.id);
}

#[test]
fn a_new_row_claims_a_last_attempt_long_ago() {
    let mut early = table_with(1);
    assert_eq!(
        Err(StorageError::NotFound),
        early.find_next_unlocked_job(1, NOW - INITIAL_RETRY_AGE + 59)
    );
    assert_eq!(1, early.find_next_unlocked_job(1, NOW - INITIAL_RETRY_AGE + 60).unwrap().id);
}

#[test]
fn the_initial_age_stops_at_the_least_timestamp() {
    let mut table = JobTable::new();
    let id = table.enqueue("Foo".to_string(), Value::Null, i64::MIN + 5).unwrap();
    assert_eq!(Some(i64::MIN), table.last_retry_at_of(id));
    assert_eq!(Err(StorageError::NotFound), table.find_next_unlocked_job(1, i64::MIN + 59));
    assert_eq!(id, table.find_next_unlocked_job(1, i64::MIN + 60).unwrap().id);
}

#[test]
fn claim_returns_the_job_as_it_was_enqueued() {
    let mut table = JobTable::new();
    let mut fields = serde_json::Map::new();
    fields.insert("to".to_string(), Value::String("someone".to_string()));
    fields.insert("tries".to_string(), Value::from(3));
    let data = Value::Object(fields);
    table.enqueue("SendMail".to_string(), data.clone(), NOW).unwrap();

    let job = table.find_next_unlocked_job(7, NOW).unwrap();

    assert_eq!(BackgroundJob { id: 1, job_type: "SendMail".to_string(), data }, job);
    assert_eq!(Some(7), table.lock_holder(1));
    assert_eq!(1, table.count());
}

#[test]
fn claims_go_by_ascending_id_and_pass_locked_rows_over() {
    let mut table = table_with(3);
    assert_eq!(1, table.find_next_unlocked_job(10, NOW).unwrap().id);
    assert_eq!(2, table.find_next_unlocked_job(11, NOW).unwrap().id);
    assert_eq!(3, table.find_next_unlocked_job(12, NOW).unwrap().id);
    assert_eq!(Err(StorageError::NotFound), table.find_next_unlocked_job(13, NOW));
    assert_eq!(Some(10), table.lock_holder(1));
    assert_eq!(Some(11), table.lock_holder(2));
    assert_eq!(Some(12), table.lock_holder(3));
}

#[test]
fn a_transaction_does_not_claim_its_own_locked_row_again() {
    let mut table = table_with(1);
    assert_eq!(1, table.find_next_unlocked_job(1, NOW).unwrap().id);
    assert_eq!(Err(StorageError::NotFound), table.find_next_unlocked_job(1, NOW));
}

#[test]
fn two_open_transactions_never_hold_the_same_row() {
    let mut table = table_with(2);
    let first = table.find_next_unlocked_job(1, NOW).unwrap();
    let second = table.find_next_unlocked_job(2, NOW + 5).unwrap();
    assert_ne!(first.id, second.id);
    table.commit(2);
    assert_eq!(Some(1), table.lock_holder(first.id));
    assert_eq!(second.id, table.find_next_unlocked_job(3, NOW).unwrap().id);
}

#[test]
fn rollback_releases_the_row_unchanged() {
    let mut table = table_with(1);
    let job = table.find_next_unlocked_job(1, NOW).unwrap();
    table.update_failed_job(1, job.id, NOW).unwrap();
    table.rollback(1);
    assert_eq!(Some(0), table.retries_of(job.id));
    assert_eq!(Some(NOW - INITIAL_RETRY_AGE), table.last_retry_at_of(job.id));
    assert_eq!(None, table.lock_holder(job.id));
    assert_eq!(job.id, table.find_next_unlocked_job(2, NOW).unwrap().id);
}

#[test]
fn rollback_drops_a_staged_deletion() {
    let mut table = table_with(1);
    let job = table.find_next_unlocked_job(1, NOW).unwrap();
    table.delete_successful_job(1, job.id).unwrap();
    table.rollback(1);
    assert_eq!(1, table.count());
    assert_eq!(None, table.lock_holder(job.id));
}

#[test]
fn a_staged_write_shows_only_after_commit() {
    let mut table = table_with(1);
    let job = table.find_next_unlocked_job(1, NOW).unwrap();
    table.update_failed_job(1, job.id, NOW + 3).unwrap();
    assert_eq!(Some(0), table.retries_of(job.id));
    assert_eq!(Some(1), table.lock_holder(job.id));
    table.commit(1);
    assert_eq!(Some(1), table.retries_of(job.id));
    assert_eq!(Some(NOW + 3), table.last_retry_at_of(job.id));
    assert_eq!(None, table.lock_holder(job.id));
}

#[test]
fn commit_of_a_deletion_removes_the_row() {
    let mut table = table_with(2);
    let job = table.find_next_unlocked_job(1, NOW).unwrap();
    assert_eq!(Ok(()), table.delete_successful_job(1, job.id));
    assert_eq!(2, table.count());
    table.commit(1);
    assert_eq!(1, table.count());
    assert_eq!(None, table.retries_of(job.id));
    assert_eq!(Some(0), table.retries_of(2));
}

#[test]
fn commit_settles_only_the_rows_of_its_transaction() {
    let mut table = table_with(3);
    table.find_next_unlocked_job(1, NOW).unwrap();
    table.find_next_unlocked_job(2, NOW).unwrap();
    table.delete_successful_job(1, 1).unwrap();
    table.update_failed_job(2, 2, NOW).unwrap();
    table.commit(1);
    assert_eq!(2, table.count());
    assert_eq!(Some(2), table.lock_holder(2));
    assert_eq!(Some(0), table.retries_of(2));
    table.commit(2);
    assert_eq!(Some(1), table.retries_of(2));
    assert_eq!(None, table.lock_holder(2));
    assert_eq!(Some(0), table.retries_of(3));
}

#[test]
fn backoff_doubles_with_each_retry() {
    let waits: [i64; 4] = [120, 240, 480, 960];
    let mut table = table_with(1);
    let mut at = NOW;
    fail_once(&mut table, 1, at);
    for (retries, wait) in waits.iter().enumerate() {
        assert_eq!(Some(retries as i32 + 1), table.retries_of(1));
        assert_eq!(
            Err(StorageError::NotFound),
            table.find_next_unlocked_job(5, at + wait - 1)
        );
        at += wait;
        if retries + 1 < waits.len() {
            assert_eq!(1, fail_once(&mut table, 6, at));
        } else {
            assert_eq!(1, table.find_next_unlocked_job(6, at).unwrap().id);
        }
    }
}

#[test]
fn a_row_without_retries_waits_one_minute() {
    let mut table = table_with(1);
    let job = table.find_next_unlocked_job(1, NOW).unwrap();
    table.rollback(1);
    assert_eq!(Some(NOW - INITIAL_RETRY_AGE), table.last_retry_at_of(job.id));
    assert_eq!(1, fail_once(&mut table, 2, NOW));
    assert_eq!(Err(StorageError::NotFound), table.find_next_unlocked_job(3, NOW + 60));
    assert_eq!(1, table.find_next_unlocked_job(3, NOW + 120).unwrap().id);
}

#[test]
fn a_row_at_max_retries_is_failed_and_no_longer_claimed() {
    assert_eq!(5, MAX_RETRIES);
    let mut table = table_with(2);
    let mut at = NOW;
    for attempt in 0..5u64 {
        let job = table.find_next_unlocked_job(attempt, at).unwrap();
        assert_eq!(1, job.id);
        table.update_failed_job(attempt, 1, at).unwrap();
        table.commit(attempt);
        assert_eq!(if attempt == 4 { 1 } else { 0 }, table.failed_job_count());
        at += 10_000;
    }
    assert_eq!(Some(5), table.retries_of(1));
    assert_eq!(1, table.failed_job_count());
    assert_eq!(2, table.find_next_unlocked_job(9, at).unwrap().id);
    assert_eq!(Err(StorageError::NotFound), table.find_next_unlocked_job(10, i64::MAX));
    assert_eq!(2, table.count());
}

#[test]
fn failed_jobs_are_counted_by_their_committed_state() {
    let mut table = table_with(1);
    let mut at = NOW;
    for attempt in 0..4u64 {
        fail_once(&mut table, attempt, at);
        at += 10_000;
    }
    let job = table.find_next_unlocked_job(4, at).unwrap();
    table.update_failed_job(4, job.id, at).unwrap();
    assert_eq!(0, table.failed_job_count());
    table.commit(4);
    assert_eq!(1, table.failed_job_count());
}

#[test]
fn delete_of_an_absent_row_fails() {
    let mut table = table_with(1);
    assert_eq!(Err(StorageError::NotFound), table.delete_successful_job(1, 42));
    assert_eq!(1, table.count());
    assert_eq!(None, table.lock_holder(1));
}

#[test]
fn delete_of_a_row_deleted_in_the_same_transaction_fails() {
    let mut table = table_with(1);
    assert_eq!(Ok(()), table.delete_successful_job(1, 1));
    assert_eq!(Err(StorageError::NotFound), table.delete_successful_job(1, 1));
}

#[test]
fn writes_to_a_row_locked_by_another_transaction_fail() {
    let mut table = table_with(1);
    table.find_next_unlocked_job(1, NOW).unwrap();
    assert!(matches!(table.delete_successful_job(2, 1), Err(StorageError::Database(_))));
    assert!(matches!(table.update_failed_job(2, 1, NOW), Err(StorageError::Database(_))));
    table.commit(2);
    assert_eq!(Some(1), table.lock_holder(1));
    assert_eq!(Some(0), table.retries_of(1));
    assert_eq!(1, table.count());
}

#[test]
fn a_write_to_an_unlocked_row_takes_its_lock() {
    let mut table = table_with(2);
    assert_eq!(Ok(()), table.update_failed_job(4, 2, NOW + 9));
    assert_eq!(Some(4), table.lock_holder(2));
    assert_eq!(1, table.find_next_unlocked_job(5, NOW).unwrap().id);
    assert_eq!(Err(StorageError::NotFound), table.find_next_unlocked_job(6, NOW));
    table.commit(4);
    assert_eq!(Some(1), table.retries_of(2));
    assert_eq!(Some(NOW + 9), table.last_retry_at_of(2));
}

#[test]
fn update_of_an_absent_row_changes_nothing() {
    let mut table = table_with(1);
    assert_eq!(Ok(()), table.update_failed_job(1, 42, NOW));
    table.commit(1);
    assert_eq!(Some(0), table.retries_of(1));
    assert_eq!(1, table.count());
}

#[test]
fn update_after_a_deletion_in_the_same_transaction_changes_nothing() {
    let mut table = table_with(1);
    table.delete_successful_job(1, 1).unwrap();
    assert_eq!(Ok(()), table.update_failed_job(1, 1, NOW));
    table.commit(1);
    assert_eq!(0, table.count());
}

#[test]
fn two_updates_in_one_transaction_count_two_retries() {
    let mut table = table_with(1);
    table.update_failed_job(1, 1, NOW).unwrap();
    table.update_failed_job(1, 1, NOW + 1).unwrap();
    table.commit(1);
    assert_eq!(Some(2), table.retries_of(1));
    assert_eq!(Some(NOW + 1), table.last_retry_at_of(1));
}

#[test]
fn a_locking_read_waits_for_a_row_locked_by_another_transaction() {
    let mut table = table_with(2);
    table.find_next_unlocked_job(1, NOW).unwrap();
    assert_eq!(None, table.select_for_update(2, Some(0)));
    assert_eq!(None, table.select_for_update(2, None));
    assert_eq!(None, table.lock_holder(2));
    table.update_failed_job(1, 1, NOW).unwrap();
    assert_eq!(None, table.select_for_update(2, Some(0)));
    table.commit(1);
    assert_eq!(Some(vec![2]), table.select_for_update(2, Some(0)));
    assert_eq!(Some(2), table.lock_holder(2));
    assert_eq!(None, table.lock_holder(1));
    assert_eq!(Some(vec![1, 2]), table.select_for_update(2, None));
    assert_eq!(Some(2), table.lock_holder(1));
}

#[test]
fn a_locking_read_does_not_wait_for_rows_that_it_does_not_select() {
    let mut table = table_with(2);
    fail_once(&mut table, 1, NOW);
    table.update_failed_job(3, 1, NOW + 1).unwrap();
    assert_eq!(Some(vec![2]), table.select_for_update(2, Some(0)));
    assert_eq!(None, table.select_for_update(2, Some(1)));
    assert_eq!(Some(vec![]), table.select_for_update(2, Some(4)));
}

#[test]
fn a_locking_read_sees_the_writes_of_its_own_transaction() {
    let mut table = table_with(3);
    table.update_failed_job(1, 1, NOW).unwrap();
    table.delete_successful_job(1, 2).unwrap();
    assert_eq!(Some(vec![3]), table.select_for_update(1, Some(0)));
    assert_eq!(Some(vec![1]), table.select_for_update(1, Some(1)));
    assert_eq!(Some(vec![1, 3]), table.select_for_update(1, None));
    assert_eq!(Some(1), table.lock_holder(3));
}

#[test]
fn every_claimable_row_is_claimed_in_its_turn() {
    let mut table = table_with(4);
    table.find_next_unlocked_job(1, NOW).unwrap();
    fail_once(&mut table, 2, NOW);
    // Row 1 is locked, row 2 waits for its backoff: one row may go ahead of row 4.
    assert_eq!(3, table.find_next_unlocked_job(3, NOW + 30).unwrap().id);
    assert_eq!(4, table.find_next_unlocked_job(4, NOW + 30).unwrap().id);
    assert_eq!(Some(4), table.lock_holder(4));
}
