//! The error types of the job runner.

use crate::text::{append_signed_decimal, decimal_int};
use vstd::prelude::*;
use vstd::std_specs::cmp::PartialEqSpecImpl;
use vstd::std_specs::convert::FromSpecImpl;
use vstd::string::StringExecFns;

verus! {

/// `diesel::result::Error`, carried as the cause of a failed insert.
#[verifier::external_type_specification]
#[verifier::external_body]
pub struct ExDieselError(diesel::result::Error);

/// `serde_json::Error`, carried as the cause of a failed serialization.
#[verifier::external_type_specification]
#[verifier::external_body]
pub struct ExJsonError(serde_json::Error);

/// An error occurred queueing the job.
#[derive(Debug)]
#[non_exhaustive]
pub enum EnqueueError {
    /// An error occurred serializing the job.
    SerializationError(serde_json::Error),
    /// An error occurred inserting the job into the database.
    DatabaseError(diesel::result::Error),
}

impl From<serde_json::Error> for EnqueueError {
    fn from(e: serde_json::Error) -> (r: Self) {
        EnqueueError::SerializationError(e)
    }
}

impl FromSpecImpl<serde_json::Error> for EnqueueError {
    open spec fn obeys_from_spec() -> bool {
        true
    }

    open spec fn from_spec(e: serde_json::Error) -> Self {
        EnqueueError::SerializationError(e)
    }
}

impl From<diesel::result::Error> for EnqueueError {
    fn from(e: diesel::result::Error) -> (r: Self) {
        EnqueueError::DatabaseError(e)
    }
}

impl FromSpecImpl<diesel::result::Error> for EnqueueError {
    open spec fn obeys_from_spec() -> bool {
        true
    }

    open spec fn from_spec(e: diesel::result::Error) -> Self {
        EnqueueError::DatabaseError(e)
    }
}

impl EnqueueError {
    /// The text of the underlying cause, as that cause renders itself.
    pub fn message(&self) -> (text: String)
        ensures
            match *self {
                EnqueueError::SerializationError(e) => vstd::string::to_string_from_display_ensures::<
                    serde_json::Error,
                >(&e, text),
                EnqueueError::DatabaseError(e) => vstd::string::to_string_from_display_ensures::<
                    diesel::result::Error,
                >(&e, text),
            },
    {
        match self {
            EnqueueError::SerializationError(e) => e.to_string(),
            EnqueueError::DatabaseError(e) => e.to_string(),
        }
    }
}

/// A failure reported by the job storage.
#[derive(Debug, PartialEq)]
pub enum StorageError {
    /// The statement matched no row.
    NotFound,
    /// The transaction was asked to roll back; carries no fault of its own.
    RollbackTransaction,
    /// Any other failure of the database, with its diagnostic text.
    Database(String),
}

impl StorageError {
    /// The diagnostic text of this failure.
    pub open spec fn message_spec(self) -> Seq<char> {
        match self {
            StorageError::NotFound => "Record not found"@,
            StorageError::RollbackTransaction => "Transaction rolled back"@,
            StorageError::Database(text) => text@,
        }
    }

    pub fn message(&self) -> (text: String)
        ensures
            text@ == self.message_spec(),
    {
        match self {
            StorageError::NotFound => String::from_str("Record not found"),
            StorageError::RollbackTransaction => String::from_str("Transaction rolled back"),
            StorageError::Database(text) => text.clone(),
        }
    }

    /// A copy of this failure.
    pub fn duplicate(&self) -> (copy: StorageError)
        ensures
            copy == *self,
    {
        match self {
            StorageError::NotFound => StorageError::NotFound,
            StorageError::RollbackTransaction => StorageError::RollbackTransaction,
            StorageError::Database(text) => StorageError::Database(text.clone()),
        }
    }

    /// Whether this is the sentinel by which a transaction is rolled back on purpose.
    pub fn is_rollback(&self) -> (b: bool)
        ensures
            b == (*self is RollbackTransaction),
    {
        match self {
            StorageError::RollbackTransaction => true,
            _ => false,
        }
    }
}

/// Reads "no row" as the absence of a value and leaves every other outcome as it is.
pub open spec fn optional_spec<T>(r: Result<T, StorageError>) -> Result<Option<T>, StorageError> {
    match r {
        Ok(value) => Ok(Some(value)),
        Err(StorageError::NotFound) => Ok(None),
        Err(e) => Err(e),
    }
}

pub fn optional<T>(r: Result<T, StorageError>) -> (o: Result<Option<T>, StorageError>)
    ensures
        o == optional_spec(r),
{
    match r {
        Ok(value) => Ok(Some(value)),
        Err(StorageError::NotFound) => Ok(None),
        Err(e) => Err(e),
    }
}

/// An error occurred performing the job: the performer's own failure, or a
/// panic that was caught around it.
#[derive(Debug, PartialEq)]
pub struct PerformError {
    pub message: String,
}

impl View for PerformError {
    type V = Seq<char>;

    open spec fn view(&self) -> Seq<char> {
        self.message@
    }
}

impl PerformError {
    pub fn new(message: String) -> (e: PerformError)
        ensures
            e.message == message,
    {
        PerformError { message }
    }

    pub fn message(&self) -> (text: String)
        ensures
            text == self.message,
    {
        self.message.clone()
    }
}

/// An error occurred while attempting to fetch jobs from the queue.
#[derive(Debug, PartialEq)]
pub enum FetchError {
    /// We could not acquire a database connection from the pool; carries the
    /// pool's own description of the failure.
    ///
    /// Either the connection pool is too small, or new connections cannot be
    /// established.
    NoDatabaseConnection(String),
    /// Could not execute the query to load a job from the database.
    FailedLoadingJob(StorageError),
    /// No message was received from the worker thread.
    ///
    /// Either the thread pool is too small, or jobs have hung indefinitely.
    NoMessageReceived,
}

impl FetchError {
    pub open spec fn message_spec(self) -> Seq<char> {
        match self {
            FetchError::NoDatabaseConnection(cause) => {
                "Timed out acquiring a database connection. "@
                    + "Try increasing the connection pool size: "@ + cause@
            },
            FetchError::FailedLoadingJob(cause) => {
                "An error occurred loading a job from the database: "@ + cause.message_spec()
            },
            FetchError::NoMessageReceived => {
                "No message was received from the worker thread. "@
                    + "Try increasing the thread pool size or timeout period."@
            },
        }
    }

    /// What went wrong and what the operator may try, in one line.
    pub fn message(&self) -> (text: String)
        ensures
            text@ == self.message_spec(),
    {
        match self {
            FetchError::NoDatabaseConnection(cause) => {
                let mut text = String::from_str("Timed out acquiring a database connection. ");
                text.append("Try increasing the connection pool size: ");
                text.append(cause.as_str());
                text
            },
            FetchError::FailedLoadingJob(cause) => {
                let mut text = String::from_str(
                    "An error occurred loading a job from the database: ",
                );
                let detail = cause.message();
                text.append(detail.as_str());
                text
            },
            FetchError::NoMessageReceived => {
                let mut text = String::from_str(
                    "No message was received from the worker thread. ",
                );
                text.append("Try increasing the thread pool size or timeout period.");
                text
            },
        }
    }

    /// The description of the underlying cause, where there is one.
    pub fn source(&self) -> (cause: Option<String>)
        ensures
            match *self {
                FetchError::NoDatabaseConnection(e) => cause matches Some(t) && t@ == e@,
                FetchError::FailedLoadingJob(e) => cause matches Some(t) && t@ == e.message_spec(),
                FetchError::NoMessageReceived => cause is None,
            },
    {
        match self {
            FetchError::NoDatabaseConnection(e) => Some(e.clone()),
            FetchError::FailedLoadingJob(e) => Some(e.message()),
            FetchError::NoMessageReceived => None,
        }
    }
}

/// An error returned by `Runner::check_for_failed_jobs`. Only used in tests.
#[derive(Debug)]
#[allow(non_camel_case_types)]
pub enum FailedJobsError {
    /// Jobs failed to run; carries the number of failed jobs.
    JobsFailed(i64),
    /// Match on `_` instead, more variants may be added in the future.
    /// Some other error occurred. Worker threads may have panicked, an error
    /// occurred counting failed jobs in the DB, or something else
    /// unexpectedly went wrong.
    __Unknown(String),
}

impl From<String> for FailedJobsError {
    fn from(e: String) -> (r: Self) {
        FailedJobsError::__Unknown(e)
    }
}

impl FromSpecImpl<String> for FailedJobsError {
    open spec fn obeys_from_spec() -> bool {
        true
    }

    open spec fn from_spec(e: String) -> Self {
        FailedJobsError::__Unknown(e)
    }
}

impl FailedJobsError {
    /// Wraps a storage failure as an unclassified one, keeping its text.
    pub fn from_storage(e: StorageError) -> (r: FailedJobsError)
        ensures
            r matches FailedJobsError::__Unknown(text) && text@ == e.message_spec(),
    {
        FailedJobsError::__Unknown(e.message())
    }

    pub open spec fn message_spec(self) -> Seq<char> {
        match self {
            FailedJobsError::JobsFailed(count) => decimal_int(count as int) + " jobs failed"@,
            FailedJobsError::__Unknown(cause) => cause@,
        }
    }

    pub fn message(&self) -> (text: String)
        ensures
            text@ == self.message_spec(),
    {
        match self {
            FailedJobsError::JobsFailed(count) => {
                let mut text = String::new();
                append_signed_decimal(&mut text, *count);
                text.append(" jobs failed");
                text
            },
            FailedJobsError::__Unknown(cause) => cause.clone(),
        }
    }

    /// The description of the underlying cause, where there is one.
    pub fn source(&self) -> (cause: Option<String>)
        ensures
            match *self {
                FailedJobsError::JobsFailed(_) => cause is None,
                FailedJobsError::__Unknown(e) => cause matches Some(t) && t@ == e@,
            },
    {
        match self {
            FailedJobsError::JobsFailed(_) => None,
            FailedJobsError::__Unknown(e) => Some(e.clone()),
        }
    }
}

impl PartialEq for FailedJobsError {
    fn eq(&self, other: &Self) -> (b: bool) {
        match (self, other) {
            (FailedJobsError::JobsFailed(x), FailedJobsError::JobsFailed(y)) => *x == *y,
            _ => false,
        }
    }
}

impl PartialEqSpecImpl for FailedJobsError {
    open spec fn obeys_eq_spec() -> bool {
        true
    }

    /// Two values are equal only when both count failed jobs, and count the same.
    open spec fn eq_spec(&self, other: &Self) -> bool {
        match (*self, *other) {
            (FailedJobsError::JobsFailed(x), FailedJobsError::JobsFailed(y)) => x == y,
            _ => false,
        }
    }
}

} // verus!
