use serde_json::Value;
use swirl::errors::{PerformError, StorageError};
use swirl::registry::Registry;
use swirl::runner::{DrainState, DrainStep};
use swirl::storage::{BackgroundJob, JobTable, INITIAL_RETRY_AGE};
use swirl::worker::{
    abort_message, advance, job_result, on_claimed, on_connection, on_finalized, on_performed,
    on_transaction_end, run_job, serve, start, try_to_extract_panic_info, Event, Outcome,
    PanicPayload, Report, Request, Response, Step,
};
use swirl::FetchError;

const NOW: i64 = 1_700_000_000;

fn job(id: i64) -> BackgroundJob {
    BackgroundJob { id, job_type: "Foo".to_string(), data: Value::Null }
}

fn failure(text: &str) -> Outcome {
    Outcome::Completed(Err(PerformError::new(text.to_string())))
}

fn quiet(request: Request) -> Step {
    Step { emit: None, log: None, request }
}

fn table_with(jobs: usize) -> JobTable {
    let mut table = JobTable::new();
    for _ in 0..jobs {
        table.enqueue("Foo".to_string(), Value::Null, NOW).unwrap();
    }
    table
}

#[test]
fn a_worker_starts_by_asking_for_a_connection() {
    assert_eq!(Request::AcquireConnection, start());
}

#[test]
fn a_worker_with_a_connection_claims_a_job() {
    assert_eq!(quiet(Request::Claim), on_connection(Ok(())));
}

#[test]
fn a_worker_without_a_connection_reports_it_and_stops() {
    let step = on_connection(Err("timed out".to_string()));
    assert_eq!(
        Step {
            emit: Some(Event::FailedToAcquireConnection("timed out".to_string())),
            log: None,
            request: Request::Finish,
        },
        step
    );
}

#[test]
fn a_claimed_job_is_announced_and_performed() {
    let step = on_claimed(Ok(job(4)));
    assert_eq!(
        Step { emit: Some(Event::Working), log: None, request: Request::Perform(job(4)) },
        step
    );
}

#[test]
fn an_empty_queue_is_announced_and_the_transaction_committed() {
    let step = on_claimed(Err(StorageError::NotFound));
    assert_eq!(
        Step { emit: Some(Event::NoJobAvailable), log: None, request: Request::Commit },
        step
    );
}

#[test]
fn a_failed_claim_is_announced_and_rolled_back_under_the_sentinel() {
    let step = on_claimed(Err(StorageError::Database("syntax error".to_string())));
    assert_eq!(
        Step {
            emit: Some(Event::ErrorLoadingJob(StorageError::Database("syntax error".to_string()))),
            log: None,
            request: Request::Rollback(StorageError::RollbackTransaction),
        },
        step
    );
    let step = on_claimed(Err(StorageError::RollbackTransaction));
    assert_eq!(Some(Event::ErrorLoadingJob(StorageError::RollbackTransaction)), step.emit);
    assert_eq!(Request::Rollback(StorageError::RollbackTransaction), step.request);
}

#[test]
fn a_successful_job_is_deleted() {
    assert_eq!(
        quiet(Request::DeleteSuccessfulJob(12)),
        on_performed(12, Outcome::Completed(Ok(())))
    );
}

#[test]
fn a_failed_job_is_logged_and_counted() {
    assert_eq!(
        Step {
            emit: None,
            log: Some("Job 12 failed to run: nope".to_string()),
            request: Request::UpdateFailedJob(12),
        },
        on_performed(12, failure("nope"))
    );
    assert_eq!(
        Some("Job -3 failed to run: ".to_string()),
        on_performed(-3, failure("")).log
    );
}

#[test]
fn a_panicked_job_is_logged_and_counted() {
    assert_eq!(
        Step {
            emit: None,
            log: Some("Job 1 failed to run: job panicked".to_string()),
            request: Request::UpdateFailedJob(1),
        },
        on_performed(1, Outcome::Panicked(PanicPayload::Opaque))
    );
    assert_eq!(
        Some("Job 9000000000 failed to run: job panicked: index out of bounds".to_string()),
        on_performed(
            9_000_000_000,
            Outcome::Panicked(PanicPayload::Literal("index out of bounds"))
        )
        .log
    );
}

#[test]
fn panic_payloads_are_described() {
    assert_eq!(
        "job panicked: panicked at src/jobs.rs:3:5",
        try_to_extract_panic_info(&PanicPayload::Info("panicked at src/jobs.rs:3:5".to_string()))
            .message
    );
    assert_eq!(
        "job panicked: oh no",
        try_to_extract_panic_info(&PanicPayload::Literal("oh no")).message
    );
    assert_eq!(
        "job panicked: value was 3",
        try_to_extract_panic_info(&PanicPayload::Message("value was 3".to_string())).message
    );
    assert_eq!("job panicked", try_to_extract_panic_info(&PanicPayload::Opaque).message);
}

#[test]
fn a_caught_panic_counts_as_a_failure_of_the_job() {
    assert_eq!(Ok(()), job_result(Outcome::Completed(Ok(()))));
    assert_eq!(Err(PerformError::new("nope".to_string())), job_result(failure("nope")));
    assert_eq!(
        Err(PerformError::new("job panicked: oh no".to_string())),
        job_result(Outcome::Panicked(PanicPayload::Literal("oh no")))
    );
}

#[test]
fn the_finalizing_statement_decides_between_commit_and_rollback() {
    assert_eq!(quiet(Request::Commit), on_finalized(Ok(())));
    assert_eq!(
        quiet(Request::Rollback(StorageError::NotFound)),
        on_finalized(Err(StorageError::NotFound))
    );
    assert_eq!(
        quiet(Request::Rollback(StorageError::Database("deadlock".to_string()))),
        on_finalized(Err(StorageError::Database("deadlock".to_string())))
    );
}

#[test]
fn only_an_unexpected_transaction_error_aborts() {
    assert_eq!(quiet(Request::Finish), on_transaction_end(Ok(())));
    assert_eq!(quiet(Request::Finish), on_transaction_end(Err(StorageError::RollbackTransaction)));
    assert_eq!(
        quiet(Request::Abort(StorageError::NotFound)),
        on_transaction_end(Err(StorageError::NotFound))
    );
    assert_eq!(
        quiet(Request::Abort(StorageError::Database("connection reset".to_string()))),
        on_transaction_end(Err(StorageError::Database("connection reset".to_string())))
    );
}

#[test]
fn the_abort_message_names_the_cause() {
    assert_eq!(
        "Failed to update job: connection reset",
        abort_message(&StorageError::Database("connection reset".to_string()))
    );
    assert_eq!("Failed to update job: Record not found", abort_message(&StorageError::NotFound));
}

#[test]
fn advance_takes_the_step_that_the_response_belongs_to() {
    assert_eq!(
        Some(quiet(Request::Claim)),
        advance(Request::AcquireConnection, Response::Connection(Ok(())))
    );
    assert_eq!(
        Some(on_claimed(Ok(job(2)))),
        advance(Request::Claim, Response::Claimed(Ok(job(2))))
    );
    assert_eq!(
        Some(on_performed(2, failure("nope"))),
        advance(Request::Perform(job(2)), Response::Performed(failure("nope")))
    );
    assert_eq!(
        Some(quiet(Request::Commit)),
        advance(Request::DeleteSuccessfulJob(2), Response::Finalized(Ok(())))
    );
    assert_eq!(
        Some(quiet(Request::Rollback(StorageError::NotFound))),
        advance(Request::UpdateFailedJob(2), Response::Finalized(Err(StorageError::NotFound)))
    );
    assert_eq!(
        Some(quiet(Request::Finish)),
        advance(Request::Commit, Response::TransactionEnded(Ok(())))
    );
    assert_eq!(
        Some(quiet(Request::Finish)),
        advance(
            Request::Rollback(StorageError::RollbackTransaction),
            Response::TransactionEnded(Err(StorageError::RollbackTransaction))
        )
    );
    assert_eq!(
        Some(quiet(Request::Abort(StorageError::Database("no begin".to_string())))),
        advance(
            Request::Claim,
            Response::TransactionEnded(Err(StorageError::Database("no begin".to_string())))
        )
    );
}

#[test]
fn advance_refuses_a_response_that_does_not_answer_the_request() {
    assert_eq!(None, advance(Request::AcquireConnection, Response::Finalized(Ok(()))));
    assert_eq!(None, advance(Request::Claim, Response::Connection(Ok(()))));
    assert_eq!(None, advance(Request::Claim, Response::TransactionEnded(Ok(()))));
    assert_eq!(None, advance(Request::Perform(job(1)), Response::Claimed(Ok(job(1)))));
    assert_eq!(None, advance(Request::Commit, Response::Finalized(Ok(()))));
    assert_eq!(None, advance(Request::Finish, Response::TransactionEnded(Ok(()))));
    assert_eq!(
        None,
        advance(Request::Abort(StorageError::NotFound), Response::TransactionEnded(Ok(())))
    );
}

#[test]
fn serve_carries_requests_out_on_the_table() {
    let mut table = table_with(1);
    assert_eq!(
        Some(Response::Connection(Ok(()))),
        serve(&mut table, 1, NOW, &Request::AcquireConnection)
    );
    assert_eq!(Some(Response::Claimed(Ok(job(1)))), serve(&mut table, 1, NOW, &Request::Claim));
    assert_eq!(
        Some(Response::Claimed(Err(StorageError::NotFound))),
        serve(&mut table, 2, NOW, &Request::Claim)
    );
    assert_eq!(None, serve(&mut table, 1, NOW, &Request::Perform(job(1))));
    assert_eq!(
        Some(Response::Finalized(Ok(()))),
        serve(&mut table, 1, NOW + 2, &Request::UpdateFailedJob(1))
    );
    assert_eq!(
        Some(Response::TransactionEnded(Err(StorageError::RollbackTransaction))),
        serve(&mut table, 1, NOW, &Request::Rollback(StorageError::RollbackTransaction))
    );
    assert_eq!(Some(0), table.retries_of(1));
    assert_eq!(
        Some(Response::Finalized(Ok(()))),
        serve(&mut table, 3, NOW, &Request::DeleteSuccessfulJob(1))
    );
    assert_eq!(
        Some(Response::Finalized(Err(StorageError::NotFound))),
        serve(&mut table, 3, NOW, &Request::DeleteSuccessfulJob(8))
    );
    assert_eq!(
        Some(Response::TransactionEnded(Ok(()))),
        serve(&mut table, 3, NOW, &Request::Commit)
    );
    assert_eq!(0, table.count());
    assert_eq!(None, serve(&mut table, 3, NOW, &Request::Finish));
    assert_eq!(None, serve(&mut table, 3, NOW, &Request::Abort(StorageError::NotFound)));
}

#[test]
fn a_successful_run_removes_the_row() {
    let mut table = table_with(2);
    let report = run_job(&mut table, 1, NOW, NOW + 4, Outcome::Completed(Ok(())));
    assert_eq!(
        Report { event: Event::Working, job: Some(1), log: None, aborted: None },
        report
    );
    assert_eq!(None, table.retries_of(1));
    assert_eq!(1, table.count());
    assert_eq!(Some(0), table.retries_of(2));
}

#[test]
fn a_failed_run_counts_one_retry_and_stamps_the_row() {
    let mut table = table_with(1);
    assert_eq!(Some(NOW - INITIAL_RETRY_AGE), table.last_retry_at_of(1));
    let report = run_job(&mut table, 1, NOW, NOW + 4, failure("nope"));
    assert_eq!(
        Report {
            event: Event::Working,
            job: Some(1),
            log: Some("Job 1 failed to run: nope".to_string()),
            aborted: None,
        },
        report
    );
    assert_eq!(Some(1), table.retries_of(1));
    assert_eq!(Some(NOW + 4), table.last_retry_at_of(1));
    assert_eq!(None, table.lock_holder(1));
    assert_eq!(1, table.count());
}

#[test]
fn a_panicking_run_counts_exactly_one_retry() {
    let mut table = table_with(1);
    let report = run_job(
        &mut table,
        1,
        NOW,
        NOW,
        Outcome::Panicked(PanicPayload::Message("boom".to_string())),
    );
    assert_eq!(None, report.aborted);
    assert_eq!(Some("Job 1 failed to run: job panicked: boom".to_string()), report.log);
    assert_eq!(Some(1), table.retries_of(1));
    assert_eq!(None, table.lock_holder(1));
}

#[test]
fn a_run_on_an_empty_queue_reports_that_no_job_is_available() {
    let mut table = JobTable::new();
    let report = run_job(&mut table, 1, NOW, NOW, failure("nope"));
    assert_eq!(
        Report { event: Event::NoJobAvailable, job: None, log: None, aborted: None },
        report
    );
    assert_eq!(0, table.count());
}

#[test]
fn a_run_passes_over_a_row_that_another_worker_holds() {
    let mut table = table_with(2);
    table.find_next_unlocked_job(1, NOW).unwrap();
    let report = run_job(&mut table, 2, NOW, NOW, Outcome::Completed(Ok(())));
    assert_eq!(Some(2), report.job);
    assert_eq!(Some(1), table.lock_holder(1));
    let report = run_job(&mut table, 3, NOW, NOW, Outcome::Completed(Ok(())));
    assert_eq!(Event::NoJobAvailable, report.event);
    assert_eq!(1, table.count());
}

#[test]
fn registry_finds_what_was_registered() {
    let mut registry: Registry<u8> = Registry::new();
    assert_eq!(Ok(()), registry.register("Foo".to_string(), 1));
    assert_eq!(Ok(()), registry.register("Bar".to_string(), 2));
    assert_eq!(Some(&1), registry.get("Foo"));
    assert_eq!(Some(&2), registry.get("Bar"));
    assert_eq!(None, registry.get("Baz"));
    assert_eq!(None, registry.get("foo"));
    assert_eq!(None, registry.get(""));
}

#[test]
fn registry_refuses_a_second_registration_of_a_type() {
    let mut registry: Registry<u8> = Registry::new();
    registry.register("Foo".to_string(), 1).unwrap();
    assert_eq!(Err("Foo".to_string()), registry.register("Foo".to_string(), 2));
    assert_eq!(Some(&1), registry.get("Foo"));
}

#[test]
fn registry_turns_an_unknown_type_into_a_failure() {
    let mut registry: Registry<u8> = Registry::new();
    registry.register("Bar".to_string(), 2).unwrap();
    assert_eq!(
        Err(PerformError::new("Unknown job type Foo".to_string())),
        registry.performer_for(&job(1))
    );
    registry.register("Foo".to_string(), 1).unwrap();
    assert_eq!(Ok(&1), registry.performer_for(&job(1)));
}

#[test]
fn jobs_to_queue_fills_the_idle_threads() {
    let idle = DrainState::new(5);
    assert_eq!(5, idle.jobs_to_queue(0));
    assert_eq!(3, idle.jobs_to_queue(2));
    assert_eq!(1, idle.jobs_to_queue(4));
    let waiting = DrainState { max_threads: 5, pending_messages: 2 };
    assert_eq!(5, waiting.jobs_to_queue(0));
    assert_eq!(1, waiting.jobs_to_queue(4));
}

#[test]
fn jobs_to_queue_asks_for_one_report_at_least() {
    assert_eq!(1, DrainState::new(5).jobs_to_queue(5));
    assert_eq!(1, DrainState::new(5).jobs_to_queue(9));
    assert_eq!(1, DrainState::new(0).jobs_to_queue(0));
    assert_eq!(0, DrainState { max_threads: 5, pending_messages: 1 }.jobs_to_queue(5));
    assert_eq!(0, DrainState { max_threads: 5, pending_messages: 1 }.jobs_to_queue(9));
}

#[test]
fn dispatched_jobs_owe_a_report_each() {
    let state = DrainState::new(4).dispatched(4);
    assert_eq!(DrainState { max_threads: 4, pending_messages: 4 }, state);
    assert_eq!(DrainState { max_threads: 4, pending_messages: 6 }, state.dispatched(2));
}

#[test]
fn drain_decides_on_each_message() {
    let state = || DrainState { max_threads: 4, pending_messages: 3 };
    assert_eq!(
        DrainStep::Continue(DrainState { max_threads: 4, pending_messages: 2 }),
        state().on_message(Some(Event::Working))
    );
    assert_eq!(DrainStep::Done(Ok(())), state().on_message(Some(Event::NoJobAvailable)));
    assert_eq!(
        DrainStep::Done(Err(FetchError::FailedLoadingJob(StorageError::Database(
            "bad".to_string()
        )))),
        state().on_message(Some(Event::ErrorLoadingJob(StorageError::Database("bad".to_string()))))
    );
    assert_eq!(
        DrainStep::Done(Err(FetchError::NoDatabaseConnection("pool is empty".to_string()))),
        state().on_message(Some(Event::FailedToAcquireConnection("pool is empty".to_string())))
    );
    assert_eq!(DrainStep::Done(Err(FetchError::NoMessageReceived)), state().on_message(None));
    assert_eq!(
        DrainStep::Continue(DrainState::new(4)),
        DrainState::new(4).on_message(Some(Event::Working))
    );
}
