use vstd::prelude::*;

use crate::channel::{channel_receiver_clone, channel_send, channel_unbounded};
use crate::handler::Handler;
use crate::request::WSGIRequest;
use crate::workers::{Job, WorkerReport};

verus! {

/// The thread pool that carries the workers, as the `threadpool` crate
/// provides it.  Opaque here.
#[verifier::external_type_specification]
#[verifier::external_body]
pub struct ExThreadPool(threadpool::ThreadPool);

/// Why the pool could not take or finish work.
#[derive(Clone, Copy, Debug, PartialEq, Eq, Structural)]
pub enum PoolError {
    /// Every worker is gone, so the job channel has no receiver left.
    Disconnected,
}

/// Relies on `threadpool::ThreadPool::new`: a pool of exactly `num_threads`
/// threads.  It panics on zero threads, so that input is kept out.
#[verifier::external_body]
fn threadpool_new(num_threads: usize) -> (r: threadpool::ThreadPool)
    requires
        num_threads >= 1,
{
    threadpool::ThreadPool::new(num_threads)
}

/// Relies on `threadpool::ThreadPool::join`: blocks until the pool has no
/// queued or running job, and returns at once on an idle pool.
#[verifier::external_body]
fn threadpool_join(pool: &threadpool::ThreadPool) {
    pool.join();
}

/// Relies on `threadpool::ThreadPool::execute`: queues a closure on the
/// pool.  The closure only calls the worker entry it was handed, with the
/// arguments it was handed.
#[verifier::external_body]
fn spawn_worker<C, H, F>(
    pool: &threadpool::ThreadPool,
    worker: F,
    idx: usize,
    server_name: String,
    server_port: String,
    application: H,
    script_name: String,
    rcv: crossbeam_channel::Receiver<Job<C>>,
) where
    C: Send + 'static,
    H: Handler + Send + 'static,
    F: Fn(usize, String, String, H, String, crossbeam_channel::Receiver<Job<C>>) -> WorkerReport
        + Send
        + 'static,
 {
    pool.execute(
        move ||
            {
                worker(idx, server_name, server_port, application, script_name, rcv);
            },
    );
}

/// N worker threads behind one shared, unbounded job channel.  Jobs are
/// delivered in queue order, each to exactly one worker; `join` lays one
/// shutdown marker per worker behind any pending jobs and waits for the
/// workers to finish.
#[verifier::reject_recursive_types(C)]
pub struct WorkerPool<C> {
    workers: threadpool::ThreadPool,
    input: crossbeam_channel::Sender<Job<C>>,
    num_workers: usize,
}

impl<C: Send + 'static> WorkerPool<C> {
    /// How many worker threads the pool was built with.
    pub closed spec fn spec_num_workers(&self) -> usize {
        self.num_workers
    }

    /// How many worker threads the pool was built with.
    pub fn max_count(&self) -> (r: usize)
        ensures
            r == self.spec_num_workers(),
    {
        self.num_workers
    }

    /// Builds the pool: one channel, `num_workers` threads, each running
    /// `worker` with its own clone of the handler and of the receiving end.
    pub fn new<H, F>(
        server_name: String,
        server_port: String,
        script_name: String,
        application: H,
        worker: F,
        num_workers: usize,
    ) -> (r: WorkerPool<C>) where
        H: Handler + Clone + Send + 'static,
        F: Fn(usize, String, String, H, String, crossbeam_channel::Receiver<Job<C>>)
            -> WorkerReport + Send + Copy + 'static,

        requires
            num_workers >= 1,
        ensures
            r.spec_num_workers() == num_workers,
    {
        let (input, rcv) = channel_unbounded::<Job<C>>();
        let workers = threadpool_new(num_workers);
        let mut idx: usize = 0;
        while idx < num_workers
            invariant
                num_workers >= 1,
            decreases num_workers - idx,
        {
            let worker_rcv = channel_receiver_clone(&rcv);
            let threadapp = clone_handler(&application);
            spawn_worker(
                &workers,
                worker,
                idx,
                server_name.clone(),
                server_port.clone(),
                threadapp,
                script_name.clone(),
                worker_rcv,
            );
            idx = idx + 1;
        }
        WorkerPool { workers, input, num_workers }
    }

    /// Enqueues one job.  The channel is unbounded, so this never blocks; it
    /// fails exactly when every worker has already gone.  The token must be
    /// a real one: zero is reserved for shutdown and never names a
    /// connection.
    pub fn execute(&mut self, token: usize, request: WSGIRequest, connection: Option<C>) -> (r: Result<
        (),
        PoolError,
    >)
        requires
            token != 0,
        ensures
            final(self).spec_num_workers() == old(self).spec_num_workers(),
    {
        match channel_send(
            &self.input,
            Job::Work { token, request, connection },
        ) {
            Ok(_) => Ok(()),
            Err(_) => Err(PoolError::Disconnected),
        }
    }

    /// Graceful shutdown: lays exactly one shutdown marker per worker behind
    /// any pending jobs, then waits for every worker to finish.  Jobs
    /// already queued are still processed first.  A second call finds the
    /// workers gone and fails cleanly with `Disconnected` instead of
    /// blocking.
    pub fn join(&mut self) -> (r: Result<(), PoolError>)
        ensures
            final(self).spec_num_workers() == old(self).spec_num_workers(),
    {
        let mut sent: usize = 0;
        while sent < self.num_workers
            invariant
                *self == *old(self),
            decreases self.num_workers - sent,
        {
            match channel_send(&self.input, Job::<C>::Shutdown) {
                Ok(_) => {},
                Err(_) => {
                    return Err(PoolError::Disconnected);
                },
            }
            sent = sent + 1;
        }
        threadpool_join(&self.workers);
        Ok(())
    }
}

/// Relies on `Clone::clone` of the handler type: hands each worker an
/// independently owned handle onto the shared application.
#[verifier::external_body]
fn clone_handler<H: Clone>(application: &H) -> (r: H) {
    application.clone()
}

} // verus!
