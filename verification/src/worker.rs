//! One worker task: claim a job inside a transaction, run it, and finalize it
//! in that same transaction.
//!
//! The task is written as the decisions that it takes. Each decision answers
//! what the surroundings report (a connection, a claimed job, the outcome of
//! the performer, the result of a statement) with what has to happen next: an
//! event for the orchestrator, a line for the operator, and the next request.
//! Whoever drives the task carries the requests out.

use crate::errors::{optional, optional_spec, PerformError, StorageError};
use crate::isolation::lemma_claim_answer;
use crate::storage::{
    access, can_retry, claim_answer, claim_spec, delete_spec, end_spec, next_claimable,
    rows_valid, update_spec, Access, BackgroundJob, JobTable, Row,
};
use crate::text::{append_signed_decimal, decimal_int};
use vstd::prelude::*;
use vstd::string::StringExecFns;

verus! {

/// What a worker tells the orchestrator about its attempt to acquire a job.
#[derive(Debug, PartialEq)]
pub enum Event {
    /// The worker has claimed a job and is now running it.
    Working,
    /// The worker ran the claim query and found no eligible row.
    NoJobAvailable,
    /// The claim query itself failed.
    ErrorLoadingJob(StorageError),
    /// The worker could not obtain a pooled connection; carries the pool's
    /// description of the failure.
    FailedToAcquireConnection(String),
}

/// What was caught when the performer panicked.
#[derive(Debug, PartialEq)]
pub enum PanicPayload {
    /// Structured panic information, rendered as text.
    Info(String),
    /// A string literal.
    Literal(&'static str),
    /// An owned string.
    Message(String),
    /// Anything else.
    Opaque,
}

/// How the run of a performer ended.
#[derive(Debug, PartialEq)]
pub enum Outcome {
    /// The performer returned, with success or with its own error.
    Completed(Result<(), PerformError>),
    /// The performer panicked and the panic was caught.
    Panicked(PanicPayload),
}

/// What the worker asks of its surroundings next.
#[derive(Debug, PartialEq)]
pub enum Request {
    /// Take a connection from the pool.
    AcquireConnection,
    /// Open a transaction and look for the next unlocked job in it.
    Claim,
    /// Run the performer for this job, catching a panic.
    Perform(BackgroundJob),
    /// Delete the row of the job that ran successfully.
    DeleteSuccessfulJob(i64),
    /// Count a failed attempt on the row of the job.
    UpdateFailedJob(i64),
    /// Commit the transaction.
    Commit,
    /// Roll the transaction back; it then reports this error.
    Rollback(StorageError),
    /// The task is over.
    Finish,
    /// The task cannot go on: escalate by panicking on the worker thread.
    Abort(StorageError),
}

/// What the surroundings report back.
#[derive(Debug, PartialEq)]
pub enum Response {
    /// The pool's answer: a connection, or the description of its failure.
    Connection(Result<(), String>),
    /// The answer of the claim query.
    Claimed(Result<BackgroundJob, StorageError>),
    /// How the performer's run ended.
    Performed(Outcome),
    /// The result of the statement that finalizes the job.
    Finalized(Result<(), StorageError>),
    /// What the transaction reported when it ended.
    TransactionEnded(Result<(), StorageError>),
}

/// One decision of the worker.
#[derive(Debug, PartialEq)]
pub struct Step {
    /// The event to send to the orchestrator, before anything else is done.
    pub emit: Option<Event>,
    /// The diagnostic to print to the error stream, before the next request
    /// is carried out.
    pub log: Option<String>,
    /// What to do next.
    pub request: Request,
}

/// The text that describes a caught panic.
pub open spec fn panic_message(payload: PanicPayload) -> Seq<char> {
    match payload {
        PanicPayload::Info(text) => "job panicked: "@ + text@,
        PanicPayload::Literal(text) => "job panicked: "@ + text@,
        PanicPayload::Message(text) => "job panicked: "@ + text@,
        PanicPayload::Opaque => "job panicked"@,
    }
}

/// Try to figure out what was caught, and describe it if we can.
pub fn try_to_extract_panic_info(payload: &PanicPayload) -> (e: PerformError)
    ensures
        e@ == panic_message(*payload),
{
    match payload {
        PanicPayload::Info(text) => {
            let mut message = String::from_str("job panicked: ");
            message.append(text.as_str());
            PerformError::new(message)
        },
        PanicPayload::Literal(text) => {
            let mut message = String::from_str("job panicked: ");
            message.append(text);
            PerformError::new(message)
        },
        PanicPayload::Message(text) => {
            let mut message = String::from_str("job panicked: ");
            message.append(text.as_str());
            PerformError::new(message)
        },
        PanicPayload::Opaque => PerformError::new(String::from_str("job panicked")),
    }
}

/// The description of the failure in which a run ended; `None` for a success.
pub open spec fn failure_text(outcome: Outcome) -> Option<Seq<char>> {
    match outcome {
        Outcome::Completed(Ok(_)) => None,
        Outcome::Completed(Err(e)) => Some(e@),
        Outcome::Panicked(payload) => Some(panic_message(payload)),
    }
}

/// The result of a run, a caught panic counted as a failure of the job.
pub fn job_result(outcome: Outcome) -> (r: Result<(), PerformError>)
    ensures
        match failure_text(outcome) {
            None => r is Ok,
            Some(text) => r matches Err(e) && e@ == text,
        },
{
    match outcome {
        Outcome::Completed(r) => r,
        Outcome::Panicked(payload) => Err(try_to_extract_panic_info(&payload)),
    }
}

/// The line that tells the operator that a job failed.
pub open spec fn failure_log(job_id: i64, cause: Seq<char>) -> Seq<char> {
    "Job "@ + decimal_int(job_id as int) + " failed to run: "@ + cause
}

/// The message with which the task panics when it has to abort.
pub open spec fn abort_message_spec(cause: StorageError) -> Seq<char> {
    "Failed to update job: "@ + cause.message_spec()
}

pub fn abort_message(cause: &StorageError) -> (text: String)
    ensures
        text@ == abort_message_spec(*cause),
{
    let mut text = String::from_str("Failed to update job: ");
    let detail = cause.message();
    text.append(detail.as_str());
    text
}

/// The first request of every task.
pub fn start() -> (request: Request)
    ensures
        request == Request::AcquireConnection,
{
    Request::AcquireConnection
}

pub open spec fn after_connection(connection: Result<(), String>) -> (Option<Event>, Request) {
    match connection {
        Ok(_) => (None, Request::Claim),
        Err(cause) => (Some(Event::FailedToAcquireConnection(cause)), Request::Finish),
    }
}

/// With a connection the task goes on to claim a job. Without one it reports
/// `FailedToAcquireConnection` and is over: a missing connection is for the
/// orchestrator to deal with, not a reason to panic.
pub fn on_connection(connection: Result<(), String>) -> (step: Step)
    ensures
        (step.emit, step.request) == after_connection(connection),
        step.log is None,
{
    match connection {
        Ok(_) => Step { emit: None, log: None, request: Request::Claim },
        Err(cause) => Step {
            emit: Some(Event::FailedToAcquireConnection(cause)),
            log: None,
            request: Request::Finish,
        },
    }
}

pub open spec fn after_claim(claimed: Result<BackgroundJob, StorageError>) -> (
    Option<Event>,
    Request,
) {
    match optional_spec(claimed) {
        Ok(Some(job)) => (Some(Event::Working), Request::Perform(job)),
        Ok(None) => (Some(Event::NoJobAvailable), Request::Commit),
        Err(e) => (
            Some(Event::ErrorLoadingJob(e)),
            Request::Rollback(StorageError::RollbackTransaction),
        ),
    }
}

/// A claimed job is announced with `Working` and run. No row is announced
/// with `NoJobAvailable`, and the empty transaction is committed. A failed
/// query is announced with `ErrorLoadingJob`, and the transaction is rolled
/// back under the rollback sentinel, which is not a fault.
pub fn on_claimed(claimed: Result<BackgroundJob, StorageError>) -> (step: Step)
    ensures
        (step.emit, step.request) == after_claim(claimed),
        step.log is None,
{
    match optional(claimed) {
        Ok(Some(job)) => Step {
            emit: Some(Event::Working),
            log: None,
            request: Request::Perform(job),
        },
        Ok(None) => Step { emit: Some(Event::NoJobAvailable), log: None, request: Request::Commit },
        Err(e) => Step {
            emit: Some(Event::ErrorLoadingJob(e)),
            log: None,
            request: Request::Rollback(StorageError::RollbackTransaction),
        },
    }
}

pub open spec fn after_perform(job_id: i64, outcome: Outcome) -> Request {
    if failure_text(outcome) is None {
        Request::DeleteSuccessfulJob(job_id)
    } else {
        Request::UpdateFailedJob(job_id)
    }
}

/// A job that ran successfully is deleted. A job that failed, by its own
/// error or by a panic, is reported to the operator and has a failed attempt
/// counted; the report comes before the write.
pub fn on_performed(job_id: i64, outcome: Outcome) -> (step: Step)
    ensures
        step.request == after_perform(job_id, outcome),
        step.emit is None,
        match failure_text(outcome) {
            None => step.log is None,
            Some(cause) => step.log matches Some(line) && line@ == failure_log(job_id, cause),
        },
{
    match job_result(outcome) {
        Ok(_) => Step { emit: None, log: None, request: Request::DeleteSuccessfulJob(job_id) },
        Err(e) => {
            let mut line = String::from_str("Job ");
            append_signed_decimal(&mut line, job_id);
            line.append(" failed to run: ");
            line.append(e.message.as_str());
            Step { emit: None, log: Some(line), request: Request::UpdateFailedJob(job_id) }
        },
    }
}

pub open spec fn after_finalize(finalized: Result<(), StorageError>) -> Request {
    match finalized {
        Ok(_) => Request::Commit,
        Err(e) => Request::Rollback(e),
    }
}

/// The transaction is committed when the finalizing statement succeeded, and
/// rolled back under the statement's error when it failed.
pub fn on_finalized(finalized: Result<(), StorageError>) -> (step: Step)
    ensures
        step.request == after_finalize(finalized),
        step.emit is None,
        step.log is None,
{
    match finalized {
        Ok(_) => Step { emit: None, log: None, request: Request::Commit },
        Err(e) => Step { emit: None, log: None, request: Request::Rollback(e) },
    }
}

pub open spec fn after_transaction(ended: Result<(), StorageError>) -> Request {
    match ended {
        Ok(_) => Request::Finish,
        Err(StorageError::RollbackTransaction) => Request::Finish,
        Err(e) => Request::Abort(e),
    }
}

/// A transaction that ended well, or under the rollback sentinel, ends the
/// task. Any other error is fatal: the task aborts.
pub fn on_transaction_end(ended: Result<(), StorageError>) -> (step: Step)
    ensures
        step.request == after_transaction(ended),
        step.emit is None,
        step.log is None,
{
    match ended {
        Ok(_) => Step { emit: None, log: None, request: Request::Finish },
        Err(StorageError::RollbackTransaction) => Step {
            emit: None,
            log: None,
            request: Request::Finish,
        },
        Err(e) => Step { emit: None, log: None, request: Request::Abort(e) },
    }
}

/// The response answers the request: it is the kind of report that the
/// request asks for.
pub open spec fn answers(request: Request, response: Response) -> bool {
    match (request, response) {
        (Request::AcquireConnection, Response::Connection(_)) => true,
        (Request::Claim, Response::Claimed(_)) => true,
        (Request::Claim, Response::TransactionEnded(Err(_))) => true,
        (Request::Perform(_), Response::Performed(_)) => true,
        (Request::DeleteSuccessfulJob(_), Response::Finalized(_)) => true,
        (Request::UpdateFailedJob(_), Response::Finalized(_)) => true,
        (Request::Commit, Response::TransactionEnded(_)) => true,
        (Request::Rollback(_), Response::TransactionEnded(_)) => true,
        _ => false,
    }
}

/// The worker's decision on a response to its outstanding request: that of
/// the step which the response belongs to. A transaction that fails before
/// the claim query could run is taken as ended. `None` where the response
/// does not answer the request, and once the task is over.
pub fn advance(request: Request, response: Response) -> (next: Option<Step>)
    ensures
        next is Some <==> answers(request, response),
        next matches Some(step) ==> match (request, response) {
            (Request::AcquireConnection, Response::Connection(connection)) => (
                step.emit,
                step.request,
            ) == after_connection(connection) && step.log is None,
            (Request::Claim, Response::Claimed(claimed)) => (step.emit, step.request)
                == after_claim(claimed) && step.log is None,
            (Request::Perform(job), Response::Performed(outcome)) => {
                &&& step.request == after_perform(job.id, outcome)
                &&& step.emit is None
                &&& match failure_text(outcome) {
                    None => step.log is None,
                    Some(cause) => step.log matches Some(line) && line@ == failure_log(
                        job.id,
                        cause,
                    ),
                }
            },
            (_, Response::Finalized(finalized)) => step.request == after_finalize(finalized)
                && step.emit is None && step.log is None,
            (_, Response::TransactionEnded(ended)) => step.request == after_transaction(ended)
                && step.emit is None && step.log is None,
            _ => false,
        },
{
    match (request, response) {
        (Request::AcquireConnection, Response::Connection(connection)) => Some(
            on_connection(connection),
        ),
        (Request::Claim, Response::Claimed(claimed)) => Some(on_claimed(claimed)),
        (Request::Claim, Response::TransactionEnded(Err(e))) => Some(on_transaction_end(Err(e))),
        (Request::Perform(job), Response::Performed(outcome)) => Some(
            on_performed(job.id, outcome),
        ),
        (Request::DeleteSuccessfulJob(_), Response::Finalized(finalized)) => Some(
            on_finalized(finalized),
        ),
        (Request::UpdateFailedJob(_), Response::Finalized(finalized)) => Some(
            on_finalized(finalized),
        ),
        (Request::Commit, Response::TransactionEnded(ended)) => Some(on_transaction_end(ended)),
        (Request::Rollback(_), Response::TransactionEnded(ended)) => Some(
            on_transaction_end(ended),
        ),
        _ => None,
    }
}

/// The table after `txn` has had `request` carried out on it at time `now`.
pub open spec fn served(m: Map<i64, Row>, txn: u64, now: i64, request: Request) -> Map<i64, Row> {
    match request {
        Request::Claim => claim_spec(m, txn, now as int),
        Request::DeleteSuccessfulJob(id) => delete_spec(m, txn, id),
        Request::UpdateFailedJob(id) => update_spec(m, txn, id, now),
        Request::Commit => end_spec(m, txn, true),
        Request::Rollback(_) => end_spec(m, txn, false),
        _ => m,
    }
}

/// What the table reports back on `request`. A request that is not for the
/// table to carry out gets no response.
pub open spec fn reported(
    m: Map<i64, Row>,
    txn: u64,
    now: i64,
    request: Request,
    response: Option<Response>,
) -> bool {
    match request {
        Request::AcquireConnection => response == Some(Response::Connection(Ok(()))),
        Request::Claim => response == Some(Response::Claimed(claim_answer(m, now as int))),
        Request::DeleteSuccessfulJob(id) => response matches Some(Response::Finalized(r))
            && match access(m, txn, id) {
            Access::Granted => r is Ok,
            Access::Missing => r == Err::<(), StorageError>(StorageError::NotFound),
            Access::Locked => r matches Err(StorageError::Database(_)),
        },
        Request::UpdateFailedJob(id) => response matches Some(Response::Finalized(r)) && (
        if access(m, txn, id) is Missing || can_retry(m, txn, id) {
            r is Ok
        } else {
            r matches Err(StorageError::Database(_))
        }),
        Request::Commit => response == Some(Response::TransactionEnded(Ok(()))),
        Request::Rollback(e) => response == Some(Response::TransactionEnded(Err(e))),
        _ => response is None,
    }
}

/// Carries out a request of a worker on a table held in memory, on behalf of
/// the transaction `txn` and at time `now`, and reports back as a database
/// would. A connection is always to be had.
pub fn serve(table: &mut JobTable, txn: u64, now: i64, request: &Request) -> (response: Option<
    Response,
>)
    requires
        old(table).wf(),
    ensures
        final(table).wf(),
        final(table).next_id() == old(table).next_id(),
        final(table)@ == served(old(table)@, txn, now, *request),
        reported(old(table)@, txn, now, *request, response),
{
    match request {
        Request::AcquireConnection => Some(Response::Connection(Ok(()))),
        Request::Claim => Some(Response::Claimed(table.find_next_unlocked_job(txn, now))),
        Request::DeleteSuccessfulJob(id) => Some(
            Response::Finalized(table.delete_successful_job(txn, *id)),
        ),
        Request::UpdateFailedJob(id) => Some(
            Response::Finalized(table.update_failed_job(txn, *id, now)),
        ),
        Request::Commit => {
            table.commit(txn);
            Some(Response::TransactionEnded(Ok(())))
        },
        Request::Rollback(e) => {
            table.rollback(txn);
            Some(Response::TransactionEnded(Err(e.duplicate())))
        },
        _ => None,
    }
}

/// The table after one task has run against it from its claim to the end of
/// its transaction: the claim made by `txn` at time `start`, the performer
/// ending in `outcome`, the finalizing statement made at time `end`, and the
/// commit. Each request is the one that the worker decides on.
pub open spec fn run_spec(m: Map<i64, Row>, txn: u64, start: i64, end: i64, outcome: Outcome) -> Map<
    i64,
    Row,
> {
    let claimed = served(m, txn, start, Request::Claim);
    match after_claim(claim_answer(m, start as int)).1 {
        Request::Perform(job) => {
            let finalized = served(claimed, txn, end, after_perform(job.id, outcome));
            served(finalized, txn, end, after_finalize(Ok(())))
        },
        request => served(claimed, txn, start, request),
    }
}

/// What a run against a table in memory came to.
#[derive(Debug, PartialEq)]
pub struct Report {
    /// The event that the task sent to the orchestrator.
    pub event: Event,
    /// The id of the job that was claimed and run, if one was.
    pub job: Option<i64>,
    /// The diagnostic that the task printed, if the job failed.
    pub log: Option<String>,
    /// The error under which the task aborted, if it did.
    pub aborted: Option<StorageError>,
}

/// Runs one task against a table held in memory: claims a job for `txn` at
/// time `start`, takes `outcome` as what the performer came to, finalizes the
/// job at time `end` and commits. The task always runs to its end: none of
/// the statements can fail here, so it never aborts.
pub fn run_job(table: &mut JobTable, txn: u64, start: i64, end: i64, outcome: Outcome) -> (report:
    Report)
    requires
        old(table).wf(),
    ensures
        final(table).wf(),
        final(table).next_id() == old(table).next_id(),
        final(table)@ == run_spec(old(table)@, txn, start, end, outcome),
        report.job == next_claimable(old(table)@, start as int),
        report.aborted is None,
        report.event == (if report.job is Some {
            Event::Working
        } else {
            Event::NoJobAvailable
        }),
        match report.job {
            Some(id) => match failure_text(outcome) {
                None => report.log is None,
                Some(cause) => report.log matches Some(line) && line@ == failure_log(id, cause),
            },
            None => report.log is None,
        },
{
    proof {
        table.lemma_valid();
        lemma_claim_answer(table@, start as int);
    }
    let claimed = table.find_next_unlocked_job(txn, start);
    let announced = on_claimed(claimed);
    let (job, log, closing) = match announced.request {
        Request::Perform(job) => {
            let id = job.id;
            let decided = on_performed(id, outcome);
            let finalized = match decided.request {
                Request::DeleteSuccessfulJob(id) => table.delete_successful_job(txn, id),
                _ => table.update_failed_job(txn, id, end),
            };
            (Some(id), decided.log, on_finalized(finalized).request)
        },
        request => (None, None, request),
    };
    let ended = match closing {
        Request::Rollback(e) => {
            table.rollback(txn);
            Err(e)
        },
        _ => {
            table.commit(txn);
            Ok(())
        },
    };
    let last = on_transaction_end(ended);
    Report {
        event: match announced.emit {
            Some(event) => event,
            None => Event::NoJobAvailable,
        },
        job,
        log,
        aborted: match last.request {
            Request::Abort(e) => Some(e),
            _ => None,
        },
    }
}

/// Retry monotonicity. A run that fails, by the performer's error or by a
/// panic, raises the retry count of the claimed row by exactly one and sets
/// the time of its last attempt to the time of the finalizing statement,
/// which is not before the start of the run. The row stays in the table and
/// is unlocked again.
pub proof fn failed_run_counts_one_retry(
    m: Map<i64, Row>,
    txn: u64,
    start: i64,
    end: i64,
    outcome: Outcome,
    id: i64,
)
    requires
        rows_valid(m),
        start <= end,
        next_claimable(m, start as int) == Some(id),
        failure_text(outcome) is Some,
    ensures
        run_spec(m, txn, start, end, outcome).contains_key(id),
        run_spec(m, txn, start, end, outcome)[id].retries == m[id].retries + 1,
        run_spec(m, txn, start, end, outcome)[id].last_retry_at == end,
        run_spec(m, txn, start, end, outcome)[id].last_retry_at >= start,
        run_spec(m, txn, start, end, outcome)[id].locked_by is None,
        run_spec(m, txn, start, end, outcome)[id].staged is Nothing,
{
    lemma_claim_answer(m, start as int);
}

/// Success deletion. A run that succeeds removes the claimed row.
pub proof fn successful_run_deletes_row(
    m: Map<i64, Row>,
    txn: u64,
    start: i64,
    end: i64,
    outcome: Outcome,
    id: i64,
)
    requires
        rows_valid(m),
        next_claimable(m, start as int) == Some(id),
        failure_text(outcome) is None,
    ensures
        !run_spec(m, txn, start, end, outcome).contains_key(id),
{
    lemma_claim_answer(m, start as int);
}

/// Panic isolation. When the performer panics, the worker decides to count
/// one failed attempt, the statement that does so succeeds, and the worker
/// then commits and ends its task in the ordinary way instead of aborting: the
/// panic does not reach the worker thread. The retry count of the claimed row
/// is raised by exactly one.
pub proof fn panic_counts_one_retry(
    m: Map<i64, Row>,
    txn: u64,
    start: i64,
    end: i64,
    payload: PanicPayload,
    id: i64,
)
    requires
        rows_valid(m),
        next_claimable(m, start as int) == Some(id),
    ensures
        after_perform(id, Outcome::Panicked(payload)) == Request::UpdateFailedJob(id),
        can_retry(claim_spec(m, txn, start as int), txn, id),
        after_finalize(Ok(())) == Request::Commit,
        after_transaction(Ok(())) == Request::Finish,
        run_spec(m, txn, start, end, Outcome::Panicked(payload)).contains_key(id),
        run_spec(m, txn, start, end, Outcome::Panicked(payload))[id].retries == m[id].retries
            + 1,
{
    lemma_claim_answer(m, start as int);
}

} // verus!
