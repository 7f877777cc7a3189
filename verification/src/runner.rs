//! The runner: its configuration, the pool of worker threads, and the
//! decisions of the loop that drains the queue.

use crate::errors::{FailedJobsError, FetchError};
use crate::registry::Registry;
use crate::text::{append_decimal, decimal_nat};
use crate::worker::Event;
use std::sync::Arc;
use std::time::Duration;
use threadpool::ThreadPool;
use vstd::prelude::*;
use vstd::std_specs::convert::IntoSpec;
use vstd::string::StringExecFns;

verus! {

/// `threadpool::ThreadPool`, the pool of worker threads.
#[verifier::external_type_specification]
#[verifier::external_body]
pub struct ExThreadPool(ThreadPool);

/// The span of time that lasts the given number of whole seconds.
pub uninterp spec fn duration_of_secs(secs: u64) -> Duration;

/// `Duration::from_secs`: the span of that many whole seconds.
#[verifier::external_body]
fn duration_from_secs(secs: u64) -> (span: Duration)
    ensures
        span == duration_of_secs(secs),
{
    Duration::from_secs(secs)
}

/// `ThreadPool::new`: a pool of that many worker threads. It panics when
/// asked for none, so the contract asks for one at least. It also panics when
/// the system cannot start a thread, which no contract can rule out. Nothing
/// is claimed of the pool.
#[verifier::external_body]
fn new_thread_pool(threads: usize) -> (pool: ThreadPool)
    requires
        threads > 0,
{
    ThreadPool::new(threads)
}

/// `ThreadPool::active_count`: how many threads are running a task at this
/// moment. The number is a snapshot of what other threads are doing, so
/// nothing is claimed of it.
#[verifier::external_body]
fn active_count(pool: &ThreadPool) -> (active: usize) {
    pool.active_count()
}

/// `ThreadPool::panic_count`: how many tasks have panicked so far. Nothing is
/// claimed of the number.
#[verifier::external_body]
fn panic_count(pool: &ThreadPool) -> (panics: usize) {
    pool.panic_count()
}

/// `ThreadPool::join`: waits until no task is queued or running, for as long
/// as that takes.
#[verifier::external_body]
fn join(pool: &ThreadPool) {
    pool.join()
}

/// `ThreadPool::execute`: queues the task for a thread of the pool.
#[verifier::external_body]
fn execute<F: FnOnce() + Send + 'static>(pool: &ThreadPool, task: F) {
    pool.execute(task)
}

/// The number of worker threads of a runner that was not told otherwise.
pub const DEFAULT_THREAD_COUNT: usize = 5;

/// The seconds for which a runner that was not told otherwise waits for a
/// worker to report.
pub const DEFAULT_JOB_START_TIMEOUT_SECS: u64 = 10;

/// Stands in the place of the connection pool until one is given.
pub struct NoConnectionPoolGiven;

/// Stands in the place of a pool builder where none was given: the pool is
/// then built with the defaults of its kind.
pub struct DefaultPoolBuilder;

/// A connection pool that is yet to be built: the database to connect to, the
/// builder to build the pool with, and the size of the pool where one was
/// asked for.
pub struct R2d2Builder<PoolBuilder> {
    pub database_url: String,
    pub pool_builder: PoolBuilder,
    pub connection_count: Option<u32>,
}

/// The configuration of a runner in the making.
pub struct Builder<Env, ConnectionPoolBuilder, Performer> {
    pub connection_pool_or_builder: ConnectionPoolBuilder,
    pub environment: Env,
    pub registry: Registry<Performer>,
    pub thread_count: Option<usize>,
    pub job_start_timeout: Option<Duration>,
}

impl<Env, ConnectionPoolBuilder, Performer> Builder<Env, ConnectionPoolBuilder, Performer> {
    /// Set the number of threads to be used to run jobs concurrently.
    ///
    /// Defaults to 5.
    pub fn thread_count(self, thread_count: usize) -> (r: Self)
        ensures
            r.thread_count == Some(thread_count),
            r.connection_pool_or_builder == self.connection_pool_or_builder,
            r.environment == self.environment,
            r.registry == self.registry,
            r.job_start_timeout == self.job_start_timeout,
    {
        let mut builder = self;
        builder.thread_count = Some(thread_count);
        builder
    }

    pub open spec fn thread_count_spec(&self) -> usize {
        match self.thread_count {
            Some(thread_count) => thread_count,
            None => DEFAULT_THREAD_COUNT,
        }
    }

    /// The number of worker threads that the runner will have.
    pub fn get_thread_count(&self) -> (thread_count: usize)
        ensures
            thread_count == self.thread_count_spec(),
    {
        match self.thread_count {
            Some(thread_count) => thread_count,
            None => DEFAULT_THREAD_COUNT,
        }
    }

    /// The amount of time to wait for a job to start before assuming an error
    /// has occurred.
    ///
    /// Defaults to 10 seconds.
    pub fn job_start_timeout(self, timeout: Duration) -> (r: Self)
        ensures
            r.job_start_timeout == Some(timeout),
            r.connection_pool_or_builder == self.connection_pool_or_builder,
            r.environment == self.environment,
            r.registry == self.registry,
            r.thread_count == self.thread_count,
    {
        let mut builder = self;
        builder.job_start_timeout = Some(timeout);
        builder
    }

    /// Provide a connection pool to be used by the runner.
    pub fn connection_pool<NewPool>(self, pool: NewPool) -> (r: Builder<Env, NewPool, Performer>)
        ensures
            r.connection_pool_or_builder == pool,
            r.environment == self.environment,
            r.registry == self.registry,
            r.thread_count == self.thread_count,
            r.job_start_timeout == self.job_start_timeout,
    {
        Builder {
            connection_pool_or_builder: pool,
            environment: self.environment,
            registry: self.registry,
            thread_count: self.thread_count,
            job_start_timeout: self.job_start_timeout,
        }
    }

    /// Build the runner with a connection pool to the given database, made
    /// with the defaults of its kind.
    ///
    /// This will override any connection pool previously provided.
    pub fn database_url<S: Into<String>>(self, database_url: S) -> (r: Builder<
        Env,
        R2d2Builder<DefaultPoolBuilder>,
        Performer,
    >)
        ensures
            S::obeys_into_spec() ==> r.connection_pool_or_builder.database_url
                == database_url.into_spec(),
            r.connection_pool_or_builder.connection_count is None,
            r.environment == self.environment,
            r.registry == self.registry,
            r.thread_count == self.thread_count,
            r.job_start_timeout == self.job_start_timeout,
    {
        self.connection_pool_builder(database_url, DefaultPoolBuilder)
    }

    /// Provide a connection pool builder and the database that the pool is to
    /// connect to.
    ///
    /// This will override any connection pool previously provided. The pool
    /// will be built with twice as many connections as there are worker
    /// threads, unless `connection_count` says otherwise.
    pub fn connection_pool_builder<S: Into<String>, PoolBuilder>(
        self,
        database_url: S,
        builder: PoolBuilder,
    ) -> (r: Builder<Env, R2d2Builder<PoolBuilder>, Performer>)
        ensures
            S::obeys_into_spec() ==> r.connection_pool_or_builder.database_url
                == database_url.into_spec(),
            r.connection_pool_or_builder.pool_builder == builder,
            r.connection_pool_or_builder.connection_count is None,
            r.environment == self.environment,
            r.registry == self.registry,
            r.thread_count == self.thread_count,
            r.job_start_timeout == self.job_start_timeout,
    {
        self.connection_pool(
            R2d2Builder {
                database_url: database_url.into(),
                pool_builder: builder,
                connection_count: None,
            },
        )
    }

    /// Build the runner. The pool of worker threads is started here, so the
    /// number of threads must not be zero.
    pub fn build(self) -> (runner: Runner<Env, ConnectionPoolBuilder, Performer>)
        requires
            self.thread_count_spec() > 0,
        ensures
            runner.max_threads() == self.thread_count_spec(),
            runner.pool() == self.connection_pool_or_builder,
            *runner.shared_environment() == self.environment,
            *runner.shared_registry() == self.registry,
            runner.timeout() == match self.job_start_timeout {
                Some(timeout) => timeout,
                None => duration_of_secs(DEFAULT_JOB_START_TIMEOUT_SECS),
            },
    {
        let thread_count = self.get_thread_count();
        let job_start_timeout = match self.job_start_timeout {
            Some(timeout) => timeout,
            None => duration_from_secs(DEFAULT_JOB_START_TIMEOUT_SECS),
        };
        Runner {
            connection_pool: self.connection_pool_or_builder,
            thread_pool: new_thread_pool(thread_count),
            thread_count,
            environment: Arc::new(self.environment),
            registry: Arc::new(self.registry),
            job_start_timeout,
        }
    }
}

impl<Env, PoolBuilder, Performer> Builder<Env, R2d2Builder<PoolBuilder>, Performer> {
    /// Set the max size of the database connection pool.
    pub fn connection_count(self, connection_count: u32) -> (r: Self)
        ensures
            r.connection_pool_or_builder.connection_count == Some(connection_count),
            r.connection_pool_or_builder.database_url
                == self.connection_pool_or_builder.database_url,
            r.connection_pool_or_builder.pool_builder
                == self.connection_pool_or_builder.pool_builder,
            r.environment == self.environment,
            r.registry == self.registry,
            r.thread_count == self.thread_count,
            r.job_start_timeout == self.job_start_timeout,
    {
        let mut builder = self;
        builder.connection_pool_or_builder.connection_count = Some(connection_count);
        builder
    }

    pub open spec fn connection_pool_size_spec(&self) -> int {
        match self.connection_pool_or_builder.connection_count {
            Some(connection_count) => connection_count as int,
            None => 2 * self.thread_count_spec(),
        }
    }

    /// The size with which the connection pool is to be built: the one that
    /// was asked for, else two connections for each worker thread.
    pub fn connection_pool_size(&self) -> (size: u32)
        requires
            self.connection_pool_size_spec() <= u32::MAX,
        ensures
            size == self.connection_pool_size_spec(),
    {
        match self.connection_pool_or_builder.connection_count {
            Some(connection_count) => connection_count,
            None => (self.get_thread_count() * 2) as u32,
        }
    }
}

/// The threads of a pool of `max_threads` that are idle while `active` of
/// them run a task.
pub open spec fn available_threads(max_threads: int, active: int) -> int {
    if active <= max_threads {
        max_threads - active
    } else {
        0
    }
}

/// How many worker tasks a round of the drain loop dispatches. While reports
/// are pending, as many as there are idle threads, which may be none: the loop
/// then only waits. With no report pending, at least one, or the loop would
/// wait for a message that it never asked for.
pub open spec fn jobs_to_queue_spec(max_threads: int, active: int, pending: int) -> int {
    let available = available_threads(max_threads, active);
    if pending == 0 && available < 1 {
        1
    } else {
        available
    }
}

/// Where the drain loop stands: the size of the thread pool, and the number of
/// dispatched tasks whose report has not been received yet.
#[derive(Debug, PartialEq)]
pub struct DrainState {
    pub max_threads: usize,
    pub pending_messages: usize,
}

/// What the drain loop does after a round.
#[derive(Debug, PartialEq)]
pub enum DrainStep {
    /// Go on with another round.
    Continue(DrainState),
    /// Return this result.
    Done(Result<(), FetchError>),
}

pub open spec fn on_message_spec(state: DrainState, message: Option<Event>) -> DrainStep {
    match message {
        Some(Event::Working) => DrainStep::Continue(
            DrainState {
                max_threads: state.max_threads,
                pending_messages: if state.pending_messages > 0 {
                    (state.pending_messages - 1) as usize
                } else {
                    0
                },
            },
        ),
        Some(Event::NoJobAvailable) => DrainStep::Done(Ok(())),
        Some(Event::ErrorLoadingJob(e)) => DrainStep::Done(Err(FetchError::FailedLoadingJob(e))),
        Some(Event::FailedToAcquireConnection(e)) => DrainStep::Done(
            Err(FetchError::NoDatabaseConnection(e)),
        ),
        None => DrainStep::Done(Err(FetchError::NoMessageReceived)),
    }
}

/// One round of the drain loop as a whole: dispatch, then decide on the
/// message that came, or on its absence.
pub open spec fn round_spec(state: DrainState, active: usize, message: Option<Event>) -> DrainStep {
    on_message_spec(
        DrainState {
            max_threads: state.max_threads,
            pending_messages: (state.pending_messages + jobs_to_queue_spec(
                state.max_threads as int,
                active as int,
                state.pending_messages as int,
            )) as usize,
        },
        message,
    )
}

impl DrainState {
    /// The state in which the drain loop starts: no report is pending.
    pub fn new(max_threads: usize) -> (state: DrainState)
        ensures
            state == (DrainState { max_threads, pending_messages: 0 }),
    {
        DrainState { max_threads, pending_messages: 0 }
    }

    /// How many worker tasks to dispatch in this round, given the number of
    /// threads that are running a task.
    pub fn jobs_to_queue(&self, active_threads: usize) -> (jobs: usize)
        ensures
            jobs == jobs_to_queue_spec(
                self.max_threads as int,
                active_threads as int,
                self.pending_messages as int,
            ),
            self.pending_messages == 0 ==> jobs >= 1,
            jobs <= self.max_threads || jobs == 1,
    {
        let available = if active_threads <= self.max_threads {
            self.max_threads - active_threads
        } else {
            0
        };
        if self.pending_messages == 0 && available < 1 {
            1
        } else {
            available
        }
    }

    /// The state after `jobs` worker tasks have been dispatched: each of them
    /// owes a report.
    pub fn dispatched(self, jobs: usize) -> (state: DrainState)
        requires
            self.pending_messages + jobs <= usize::MAX,
        ensures
            state == (DrainState {
                max_threads: self.max_threads,
                pending_messages: (self.pending_messages + jobs) as usize,
            }),
    {
        DrainState {
            max_threads: self.max_threads,
            pending_messages: self.pending_messages + jobs,
        }
    }

    /// The decision on what the wait for a message brought. `Working` settles
    /// one pending report and the loop goes on. `NoJobAvailable` ends the loop
    /// with success, `ErrorLoadingJob` with `FailedLoadingJob`,
    /// `FailedToAcquireConnection` with `NoDatabaseConnection`, each with the
    /// cause that the event carries. No message within the timeout ends the
    /// loop with `NoMessageReceived`.
    pub fn on_message(self, message: Option<Event>) -> (step: DrainStep)
        ensures
            step == on_message_spec(self, message),
    {
        match message {
            Some(Event::Working) => DrainStep::Continue(
                DrainState {
                    max_threads: self.max_threads,
                    pending_messages: if self.pending_messages > 0 {
                        self.pending_messages - 1
                    } else {
                        0
                    },
                },
            ),
            Some(Event::NoJobAvailable) => DrainStep::Done(Ok(())),
            Some(Event::ErrorLoadingJob(e)) => DrainStep::Done(
                Err(FetchError::FailedLoadingJob(e)),
            ),
            Some(Event::FailedToAcquireConnection(e)) => DrainStep::Done(
                Err(FetchError::NoDatabaseConnection(e)),
            ),
            None => DrainStep::Done(Err(FetchError::NoMessageReceived)),
        }
    }
}

/// What a number of panicked worker threads means for the check for failed
/// jobs: none is fine, any is an unclassified error that names the number.
pub open spec fn reports_panics(panics: usize, result: Result<(), FailedJobsError>) -> bool {
    if panics == 0 {
        result is Ok
    } else {
        result matches Err(FailedJobsError::__Unknown(text)) && text@ == decimal_nat(panics as nat)
            + " threads panicked"@
    }
}

pub fn result_of_panics(panics: usize) -> (result: Result<(), FailedJobsError>)
    ensures
        reports_panics(panics, result),
{
    if panics == 0 {
        Ok(())
    } else {
        let mut text = String::new();
        append_decimal(&mut text, panics as u64);
        text.append(" threads panicked");
        Err(FailedJobsError::__Unknown(text))
    }
}

/// What the count of failed jobs, or the failure to count them, means for
/// the check: no failed job is fine, some are `JobsFailed` with their number,
/// and a count that could not be had is an unclassified error with its cause.
pub open spec fn result_of_count_spec(count: Result<i64, String>) -> Result<(), FailedJobsError> {
    match count {
        Ok(failed) => if failed == 0 {
            Ok(())
        } else {
            Err(FailedJobsError::JobsFailed(failed))
        },
        Err(cause) => Err(FailedJobsError::__Unknown(cause)),
    }
}

pub fn result_of_count(count: Result<i64, String>) -> (result: Result<(), FailedJobsError>)
    ensures
        result == result_of_count_spec(count),
{
    match count {
        Ok(failed) => if failed == 0 {
            Ok(())
        } else {
            Err(FailedJobsError::JobsFailed(failed))
        },
        Err(cause) => Err(FailedJobsError::__Unknown(cause)),
    }
}

/// The core runner responsible for locking and running jobs.
pub struct Runner<Env, ConnectionPool, Performer> {
    connection_pool: ConnectionPool,
    thread_pool: ThreadPool,
    thread_count: usize,
    environment: Arc<Env>,
    registry: Arc<Registry<Performer>>,
    job_start_timeout: Duration,
}

impl<Env, Performer> Runner<Env, NoConnectionPoolGiven, Performer> {
    /// Create a builder for a job runner.
    ///
    /// This method takes the environment to pass to your jobs and the
    /// registry of their performers. The connection pool is given to the
    /// builder. If your environment contains a connection pool, it should be
    /// the same pool given there.
    pub fn builder(environment: Env, registry: Registry<Performer>) -> (r: Builder<
        Env,
        NoConnectionPoolGiven,
        Performer,
    >)
        ensures
            r.environment == environment,
            r.registry == registry,
            r.thread_count is None,
            r.job_start_timeout is None,
    {
        Builder {
            connection_pool_or_builder: NoConnectionPoolGiven,
            environment,
            registry,
            thread_count: None,
            job_start_timeout: None,
        }
    }
}

impl<Env, ConnectionPool, Performer> Runner<Env, ConnectionPool, Performer> {
    pub closed spec fn pool(&self) -> ConnectionPool {
        self.connection_pool
    }

    pub closed spec fn max_threads(&self) -> usize {
        self.thread_count
    }

    pub closed spec fn shared_environment(&self) -> Arc<Env> {
        self.environment
    }

    pub closed spec fn shared_registry(&self) -> Arc<Registry<Performer>> {
        self.registry
    }

    pub closed spec fn timeout(&self) -> Duration {
        self.job_start_timeout
    }

    /// The connection pool that the runner was given.
    pub fn connection_pool(&self) -> (pool: &ConnectionPool)
        ensures
            *pool == self.pool(),
    {
        &self.connection_pool
    }

    /// The environment, shared with the caller.
    pub fn environment(&self) -> (environment: Arc<Env>)
        ensures
            environment == self.shared_environment(),
    {
        Arc::clone(&self.environment)
    }

    /// The registry, shared with the caller.
    pub fn registry(&self) -> (registry: Arc<Registry<Performer>>)
        ensures
            registry == self.shared_registry(),
    {
        Arc::clone(&self.registry)
    }

    /// How long the drain loop waits for a worker to report.
    pub fn job_start_timeout(&self) -> (timeout: Duration)
        ensures
            timeout == self.timeout(),
    {
        self.job_start_timeout
    }

    /// The state in which a drain of the queue starts.
    pub fn start_draining(&self) -> (state: DrainState)
        ensures
            state == (DrainState { max_threads: self.max_threads(), pending_messages: 0 }),
    {
        DrainState::new(self.thread_count)
    }

    /// Hands a task to the pool of worker threads.
    pub fn execute<F: FnOnce() + Send + 'static>(&self, task: F) {
        execute(&self.thread_pool, task)
    }

    /// One round of the drain loop: dispatches as many worker tasks as the
    /// state of the thread pool calls for, by calling `dispatch` once for
    /// each, then waits for a message by calling `receive`, which returns
    /// `None` when the timeout has passed, and decides on it. Whatever the
    /// pool and the workers report, the step is the one that the round's
    /// rules give for it.
    pub fn drain_round<D: Fn(), R: Fn() -> Option<Event>>(
        &self,
        state: DrainState,
        dispatch: &D,
        receive: &R,
    ) -> (step: DrainStep)
        requires
            call_requires(*dispatch, ()),
            call_requires(*receive, ()),
            state.pending_messages + state.max_threads + 1 <= usize::MAX,
        ensures
            exists|active: usize, message: Option<Event>|
                call_ensures(*receive, (), message) && step == round_spec(state, active, message),
    {
        let active = active_count(&self.thread_pool);
        let jobs_to_queue = state.jobs_to_queue(active);
        let mut queued: usize = 0;
        while queued < jobs_to_queue
            invariant
                call_requires(*dispatch, ()),
                queued <= jobs_to_queue,
            decreases jobs_to_queue - queued,
        {
            dispatch();
            queued += 1;
        }
        let waiting = state.dispatched(jobs_to_queue);
        let message = receive();
        let step = waiting.on_message(message);
        assert(call_ensures(*receive, (), message) && step == round_spec(state, active, message));
        step
    }

    /// Waits for all running jobs to complete, and returns an error if any
    /// worker thread panicked.
    pub fn wait_for_jobs(&self) -> (result: Result<(), FailedJobsError>)
        ensures
            exists|panics: usize| reports_panics(panics, result),
    {
        join(&self.thread_pool);
        let panics = panic_count(&self.thread_pool);
        let result = result_of_panics(panics);
        assert(reports_panics(panics, result));
        result
    }

    /// Waits for all running jobs to complete, and returns an error if any
    /// failed.
    ///
    /// This function is intended for use in tests. If any jobs have failed, it
    /// will return `JobsFailed` with the number of jobs that failed, which
    /// `failed_job_count` is called for once the workers are done.
    ///
    /// If any other unexpected errors occurred, such as panicked worker
    /// threads or an error loading the job count from the database, an opaque
    /// error will be returned.
    pub fn check_for_failed_jobs<F: FnOnce() -> Result<i64, String>>(
        &self,
        failed_job_count: F,
    ) -> (result: Result<(), FailedJobsError>)
        requires
            call_requires(failed_job_count, ()),
        ensures
            (exists|panics: usize| panics > 0 && reports_panics(panics, result)) || (exists|
                count: Result<i64, String>,
            |
                call_ensures(failed_job_count, (), count) && result == result_of_count_spec(count)),
    {
        match self.wait_for_jobs() {
            Err(e) => {
                return Err(e);
            },
            Ok(_) => {},
        }
        let count = failed_job_count();
        let result = result_of_count(count);
        assert(call_ensures(failed_job_count, (), count) && result == result_of_count_spec(count));
        result
    }
}

} // verus!
