use vstd::prelude::*;

use std::collections::HashMap;

use crate::channel::{channel_recv, channel_try_recv, RecvOutcome};
use crate::globals::WSGIGlobals;
use crate::handler::Handler;
use crate::ioerror::{would_block, IoKind};
use crate::poller::{Event, Poller};
use crate::request::WSGIRequest;
use crate::response::WSGIResponse;
use crate::transport::{BlockingWrite, NonBlockingWrite, Write};

verus! {

broadcast use vstd::std_specs::hash::group_hash_axioms;

/// One unit of work travelling from the acceptor to a worker.
pub enum Job<C> {
    /// A request ready for the handler, together with the connection the
    /// response goes out on.
    Work {
        /// The token the acceptor allocated for the connection.
        token: usize,
        /// The parsed request.
        request: WSGIRequest,
        /// The connection to answer on, if one is attached.
        connection: Option<C>,
    },
    /// The in-band shutdown marker: exactly the worker that receives it
    /// leaves its dispatch loop.
    Shutdown,
}

/// Why a worker left its dispatch loop, and how many shutdown markers it
/// consumed on the way: never more than one.
pub struct WorkerReport {
    /// Why the dispatch loop ended.
    pub exit: WorkerExit,
    /// How many shutdown markers the worker consumed.
    pub shutdowns_consumed: usize,
}

/// The ways a worker's dispatch loop can end.
#[derive(Clone, Copy, Debug, PartialEq, Eq, Structural)]
pub enum WorkerExit {
    /// A shutdown marker arrived.
    ShutdownReceived,
    /// Every sender hung up and the queue is drained.
    ChannelDisconnected,
    /// The readiness poller could not be created at startup.
    PollerFailed,
    /// The loop's iteration bound ran out; the bound is large enough that
    /// this marks the dispatch loop as provably finite rather than a state
    /// a deployment reaches.
    IterationLimit,
}

/// The per-worker stash of half-written responses: the connections waiting
/// for writable readiness, keyed by token, and the requests whose responses
/// they carry.  Both maps always hold exactly the same tokens, and every
/// stashed request carries a well-formed response.
pub struct WorkerState<C> {
    connections: HashMap<usize, C>,
    requests: HashMap<usize, WSGIRequest>,
}

impl<C> WorkerState<C> {
    /// The stashed connections by token.
    pub closed spec fn conns(&self) -> Map<usize, C> {
        self.connections@
    }

    /// The stashed requests by token.
    pub closed spec fn reqs(&self) -> Map<usize, WSGIRequest> {
        self.requests@
    }

    /// The stash invariant: both maps share one key set, and every stashed
    /// request still carries the response being written.
    pub open spec fn wf(&self) -> bool {
        &&& self.conns().dom() == self.reqs().dom()
        &&& forall|t: usize|
            self.reqs().dom().contains(t) ==> ((#[trigger] self.reqs()[t]).response matches Some(
                resp,
            ) && resp.wf())
    }

    /// An empty stash.
    pub fn new() -> (r: WorkerState<C>)
        ensures
            r.wf(),
            r.conns() == Map::<usize, C>::empty(),
            r.reqs() == Map::<usize, WSGIRequest>::empty(),
    {
        WorkerState { connections: HashMap::new(), requests: HashMap::new() }
    }

    /// Whether any response is stashed awaiting readiness.
    pub fn has_pending(&self) -> (r: bool)
        ensures
            r == !self.reqs().is_empty(),
    {
        !self.requests.is_empty()
    }

    /// Whether this token is stashed.
    pub fn contains(&self, token: usize) -> (r: bool)
        ensures
            r == self.conns().dom().contains(token),
    {
        self.connections.contains_key(&token)
    }

    /// Stashes a connection and the request whose response it still owes.
    pub fn stash(&mut self, token: usize, connection: C, request: WSGIRequest)
        requires
            old(self).wf(),
            request.response matches Some(resp) && resp.wf(),
        ensures
            final(self).wf(),
            final(self).conns() == old(self).conns().insert(token, connection),
            final(self).reqs() == old(self).reqs().insert(token, request),
    {
        self.connections.insert(token, connection);
        self.requests.insert(token, request);
        proof {
            assert(self.conns().dom() =~= self.reqs().dom());
        }
    }

    /// Removes and returns the stashed pair for a token, if one is present.
    pub fn take(&mut self, token: usize) -> (r: Option<(C, WSGIRequest)>)
        requires
            old(self).wf(),
        ensures
            final(self).wf(),
            (r is Some <==> old(self).conns().dom().contains(token)),
            (r matches Some(pair) ==> {
                &&& pair.0 == old(self).conns()[token]
                &&& pair.1 == old(self).reqs()[token]
                &&& pair.1.response matches Some(resp) && resp.wf()
                &&& final(self).conns() == old(self).conns().remove(token)
                &&& final(self).reqs() == old(self).reqs().remove(token)
            }),
            (r is None ==> final(self).conns() == old(self).conns()
                && final(self).reqs() == old(self).reqs()),
    {
        match self.connections.remove(&token) {
            Some(conn) => {
                match self.requests.remove(&token) {
                    Some(req) => {
                        proof {
                            assert(self.conns().dom() =~= self.reqs().dom());
                        }
                        Some((conn, req))
                    },
                    None => {
                        proof {
                            assert(false);
                        }
                        None
                    },
                }
            },
            None => {
                proof {
                    assert(self.connections@ =~= old(self).connections@);
                    assert(self.requests@ =~= old(self).requests@);
                }
                None
            },
        }
    }
}

/// Resumes writing a response to a connection: chunks are written until the
/// response reports completion, the connection would block, or a write fails
/// fatally.  `Ok(true)` means the response is done; `Ok(false)` means it
/// must be resumed when the connection becomes writable again; a returned
/// error is never `WouldBlock`.
pub fn handle_write_event<C: Write>(response: &mut WSGIResponse, connection: &mut C) -> (r: Result<
    bool,
    IoKind,
>)
    requires
        old(response).wf(),
    ensures
        final(response).wf(),
        final(response).current_chunk == old(response).current_chunk,
        final(response).last_chunk_or_file_sent == old(response).last_chunk_or_file_sent,
        old(response).sent <= final(response).sent,
        (r == Ok::<bool, IoKind>(true) ==> final(response).spec_complete()),
        (r != Ok::<bool, IoKind>(true) && !old(response).spec_complete()
            ==> !final(response).spec_complete()),
        (r matches Err(k) ==> k != IoKind::WouldBlock),
        final(connection).absorbed() == old(connection).absorbed()
            + old(response).current_chunk@.subrange(
            old(response).sent as int,
            final(response).sent as int,
        ),
{
    loop
        invariant
            response.wf(),
            response.current_chunk == old(response).current_chunk,
            response.last_chunk_or_file_sent == old(response).last_chunk_or_file_sent,
            old(response).sent <= response.sent,
            old(response).spec_complete() || !response.spec_complete(),
            connection.absorbed() == old(connection).absorbed()
                + old(response).current_chunk@.subrange(
                old(response).sent as int,
                response.sent as int,
            ),
        decreases response.current_chunk@.len() - response.sent,
    {
        let ghost chunk: Seq<u8> = response.current_chunk@;
        let ghost iter_sent: int = response.sent as int;
        let ghost iter_absorbed: Seq<u8> = connection.absorbed();
        let before: usize = response.sent;
        proof {
            lemma_absorbed_chain(
                old(connection).absorbed(),
                chunk,
                old(response).sent as int,
                iter_sent,
                iter_sent,
            );
        }
        match response.write_chunk(connection) {
            Ok(done) => {
                proof {
                    lemma_absorbed_chain(
                        old(connection).absorbed(),
                        chunk,
                        old(response).sent as int,
                        iter_sent,
                        response.sent as int,
                    );
                }
                if done {
                    return Ok(true);
                }
                if response.sent == before {
                    // The chunk is drained but not yet marked terminal;
                    // nothing more can be written now.
                    return Ok(false);
                }
            },
            Err(k) => {
                proof {
                    lemma_absorbed_chain(
                        old(connection).absorbed(),
                        chunk,
                        old(response).sent as int,
                        iter_sent,
                        response.sent as int,
                    );
                }
                if would_block(&k) {
                    return Ok(false);
                }
                return Err(k);
            },
        }
    }
}

/// Splicing two adjacent written ranges of the chunk extends the absorbed
/// prefix in one piece.
proof fn lemma_absorbed_chain(base: Seq<u8>, chunk: Seq<u8>, a: int, b: int, c: int)
    requires
        0 <= a <= b <= c <= chunk.len(),
    ensures
        (base + chunk.subrange(a, b)) + chunk.subrange(b, c) == base + chunk.subrange(a, c),
{
    assert(chunk.subrange(a, b) + chunk.subrange(b, c) =~= chunk.subrange(a, c));
    assert((base + chunk.subrange(a, b)) + chunk.subrange(b, c) =~= base + (chunk.subrange(a, b)
        + chunk.subrange(b, c)));
}

/// What became of a freshly received job.
#[derive(Clone, Copy, Debug, PartialEq, Eq, Structural)]
pub enum JobOutcome {
    /// The response was written out in full at once.
    Completed,
    /// The connection would block: it is registered with the poller and the
    /// pair is stashed under its token.
    Stashed,
    /// A write failed fatally; the response was marked terminal and the
    /// connection dropped.
    WriteFailed(IoKind),
    /// The job carried no connection to write to.
    NoConnection,
    /// The handler produced no response; the connection is dropped.
    NoResponse,
}

/// The non-blocking worker's treatment of one freshly received job: run the
/// handler, attempt an optimistic synchronous write, and stash the
/// connection under its token if the write would block.  The stash maps gain
/// the token exactly in the `Stashed` outcome and are untouched otherwise,
/// so no job leaves this function unaccounted for.
pub fn handle_new_job<C: NonBlockingWrite, H: Handler, P: Poller<C>>(
    state: &mut WorkerState<C>,
    poller: &mut P,
    application: &H,
    globals: &WSGIGlobals,
    token: usize,
    request: WSGIRequest,
    connection: Option<C>,
) -> (r: JobOutcome)
    requires
        old(state).wf(),
    ensures
        final(state).wf(),
        (r == JobOutcome::Stashed ==> {
            &&& final(state).conns().dom() == old(state).conns().dom().insert(token)
            &&& final(state).reqs().dom() == old(state).reqs().dom().insert(token)
            &&& connection matches Some(entry_conn)
            &&& final(state).reqs()[token].response matches Some(resp)
            &&& final(state).conns()[token].absorbed() == entry_conn.absorbed()
                + resp.current_chunk@.subrange(0, resp.sent as int)
        }),
        (r != JobOutcome::Stashed ==> final(state).conns() == old(state).conns()
            && final(state).reqs() == old(state).reqs()),
        (r == JobOutcome::NoConnection <==> connection is None),
{
    let mut connection = match connection {
        Some(c) => c,
        None => {
            return JobOutcome::NoConnection;
        },
    };
    let mut request = request;
    application.handle(globals, &mut request);
    let mut response = match request.take_response() {
        Some(resp) => resp,
        None => {
            return JobOutcome::NoResponse;
        },
    };
    match handle_write_event(&mut response, &mut connection) {
        Ok(true) => JobOutcome::Completed,
        Ok(false) => {
            // Register first; a registration failure is logged and the pair
            // is stashed regardless, matching the write path's policy of
            // carrying on after non-fatal trouble.
            let _ = poller.register(&mut connection, token);
            request.response = Some(response);
            state.stash(token, connection, request);
            JobOutcome::Stashed
        },
        Err(k) => {
            response.last_chunk_or_file_sent = true;
            JobOutcome::WriteFailed(k)
        },
    }
}

/// What became of one readiness event.
#[derive(Clone, Copy, Debug, PartialEq, Eq, Structural)]
pub enum EventOutcome {
    /// The stashed response finished; the connection was deregistered from
    /// the poller before being dropped.
    Finished,
    /// The connection would still block; the pair went back into the stash.
    StillPending,
    /// A write failed fatally; the pair left both maps and the connection
    /// was dropped, which deregisters it.
    WriteFailed(IoKind),
    /// The event was not writable or carried an unknown token.
    Ignored,
}

/// The non-blocking worker's treatment of one readiness event: look up the
/// stashed pair under the event's token and resume writing.  On every
/// terminal disposition the token leaves both maps together; only a still
/// pending response keeps it stashed.
pub fn handle_ready_event<C: NonBlockingWrite, P: Poller<C>>(
    state: &mut WorkerState<C>,
    poller: &mut P,
    event: &Event,
) -> (r: EventOutcome)
    requires
        old(state).wf(),
    ensures
        final(state).wf(),
        (r == EventOutcome::Ignored ==> final(state).conns() == old(state).conns()
            && final(state).reqs() == old(state).reqs()),
        (r == EventOutcome::Finished || (r matches EventOutcome::WriteFailed(_)) ==> {
            &&& final(state).conns() == old(state).conns().remove(event.token)
            &&& final(state).reqs() == old(state).reqs().remove(event.token)
        }),
        (r == EventOutcome::StillPending ==> {
            &&& final(state).conns().dom() == old(state).conns().dom()
            &&& final(state).reqs().dom() == old(state).reqs().dom()
            &&& final(state).conns().dom().contains(event.token)
            &&& old(state).reqs()[event.token].response matches Some(was)
            &&& final(state).reqs()[event.token].response matches Some(now)
            &&& now.current_chunk == was.current_chunk
            &&& was.sent <= now.sent
            &&& final(state).conns()[event.token].absorbed() == old(
                state,
            ).conns()[event.token].absorbed() + was.current_chunk@.subrange(
                was.sent as int,
                now.sent as int,
            )
        }),
        (r != EventOutcome::Ignored ==> old(state).conns().dom().contains(event.token)),
{
    if !event.writable {
        return EventOutcome::Ignored;
    }
    let token = event.token;
    match state.take(token) {
        None => EventOutcome::Ignored,
        Some((mut connection, mut request)) => {
            let mut response = match request.take_response() {
                Some(resp) => resp,
                None => {
                    proof {
                        assert(false);
                    }
                    return EventOutcome::Ignored;
                },
            };
            match handle_write_event(&mut response, &mut connection) {
                Ok(true) => {
                    // Deregistration must precede dropping the connection.
                    let _ = poller.deregister(&mut connection, token);
                    EventOutcome::Finished
                },
                Ok(false) => {
                    request.response = Some(response);
                    state.stash(token, connection, request);
                    proof {
                        assert(state.conns().dom() =~= old(state).conns().dom());
                        assert(state.reqs().dom() =~= old(state).reqs().dom());
                    }
                    EventOutcome::StillPending
                },
                Err(k) => EventOutcome::WriteFailed(k),
            }
        },
    }
}

/// Receives a job, blocking only when nothing is stashed; with stashed
/// responses waiting, a non-blocking attempt is made so readiness events
/// keep being serviced.
fn recv_or_try_recv<T>(block: bool, rcv: &crossbeam_channel::Receiver<T>) -> (r: RecvOutcome<T>)
    ensures
        block ==> !(r is Empty),
{
    if block {
        channel_recv(rcv)
    } else {
        channel_try_recv(rcv)
    }
}

/// Streams a response over a blocking connection: chunks are written until
/// the response completes or a write errors; errors are not retried, and on
/// an error the response stays incomplete.  The connection ends up having
/// absorbed exactly the chunk range written here, in order.
fn write_response_blocking<C: Write>(response: &mut WSGIResponse, connection: &mut C) -> (r: Result<
    (),
    IoKind,
>)
    requires
        old(response).wf(),
    ensures
        final(response).wf(),
        final(response).current_chunk == old(response).current_chunk,
        final(response).last_chunk_or_file_sent == old(response).last_chunk_or_file_sent,
        old(response).sent <= final(response).sent,
        (r is Ok ==> final(response).spec_complete()
            || final(response).sent == final(response).current_chunk@.len()),
        (r is Err && !old(response).spec_complete() ==> !final(response).spec_complete()),
        final(connection).absorbed() == old(connection).absorbed()
            + old(response).current_chunk@.subrange(
            old(response).sent as int,
            final(response).sent as int,
        ),
{
    loop
        invariant
            response.wf(),
            response.current_chunk == old(response).current_chunk,
            response.last_chunk_or_file_sent == old(response).last_chunk_or_file_sent,
            old(response).sent <= response.sent,
            old(response).spec_complete() || !response.spec_complete(),
            connection.absorbed() == old(connection).absorbed()
                + old(response).current_chunk@.subrange(
                old(response).sent as int,
                response.sent as int,
            ),
        decreases response.current_chunk@.len() - response.sent,
    {
        let ghost chunk: Seq<u8> = response.current_chunk@;
        let ghost iter_sent: int = response.sent as int;
        let before: usize = response.sent;
        match response.write_chunk(connection) {
            Ok(done) => {
                proof {
                    lemma_absorbed_chain(
                        old(connection).absorbed(),
                        chunk,
                        old(response).sent as int,
                        iter_sent,
                        response.sent as int,
                    );
                }
                if done {
                    return Ok(());
                }
                if response.sent == before {
                    return Ok(());
                }
            },
            Err(k) => {
                proof {
                    lemma_absorbed_chain(
                        old(connection).absorbed(),
                        chunk,
                        old(response).sent as int,
                        iter_sent,
                        response.sent as int,
                    );
                }
                return Err(k);
            },
        }
    }
}

/// What became of one job on the blocking path.
#[derive(Clone, Copy, Debug, PartialEq, Eq, Structural)]
pub enum BlockingJobOutcome {
    /// The response was written out in full.
    Completed,
    /// A write failed; the error is not retried and the connection dropped.
    WriteFailed(IoKind),
    /// The job carried no connection to write to.
    NoConnection,
    /// The handler produced no response; the connection is dropped.
    NoResponse,
}

/// The blocking worker's treatment of one received job: switch the
/// connection to blocking mode (a failed switch is logged and the write
/// attempted anyway), run the handler, and write the whole response before
/// returning.  Every job ends in exactly one of the four outcomes, so none
/// disappears silently.
pub fn handle_blocking_job<C: BlockingWrite, H: Handler>(
    application: &H,
    globals: &WSGIGlobals,
    request: WSGIRequest,
    connection: Option<C>,
) -> (r: BlockingJobOutcome)
    ensures
        (r == BlockingJobOutcome::NoConnection <==> connection is None),
{
    let mut connection = match connection {
        Some(c) => c,
        None => {
            return BlockingJobOutcome::NoConnection;
        },
    };
    // A failed switch to blocking mode is logged and the write is
    // attempted anyway.
    let _ = connection.set_blocking();
    let mut request = request;
    application.handle(globals, &mut request);
    let mut response = match request.take_response() {
        Some(resp) => resp,
        None => {
            return BlockingJobOutcome::NoResponse;
        },
    };
    match write_response_blocking(&mut response, &mut connection) {
        Ok(_) => {
            // The handler marked the response terminal, so a drained chunk
            // is a complete response.
            proof {
                assert(response.spec_complete());
            }
            BlockingJobOutcome::Completed
        },
        Err(k) => BlockingJobOutcome::WriteFailed(k),
    }
}

/// The blocking worker: pull one job, switch its connection to blocking
/// mode, run the handler, and write the whole response before looking at
/// the next job.  One connection monopolizes the worker for the duration of
/// its response.  The loop ends at the first shutdown marker or when the
/// channel disconnects, so at most one marker is ever consumed.
#[allow(unused_variables)]
pub fn write_blocking_worker<C: BlockingWrite, H: Handler>(
    idx: usize,
    server_name: String,
    server_port: String,
    application: H,
    script_name: String,
    rcv: crossbeam_channel::Receiver<Job<C>>,
) -> (r: WorkerReport)
    ensures
        r.shutdowns_consumed <= 1,
        (r.exit == WorkerExit::ShutdownReceived <==> r.shutdowns_consumed == 1),
{
    let globals = WSGIGlobals::new(
        server_name.as_str(),
        server_port.as_str(),
        script_name.as_str(),
    );
    let mut exit = WorkerExit::IterationLimit;
    let mut shutdowns: usize = 0;
    let mut fuel: usize = usize::MAX;
    loop
        invariant_except_break
            exit == WorkerExit::IterationLimit,
            shutdowns == 0,
        ensures
            shutdowns <= 1,
            (exit == WorkerExit::ShutdownReceived <==> shutdowns == 1),
        decreases fuel,
    {
        if fuel == 0 {
            break ;
        }
        fuel = fuel - 1;
        match channel_recv(&rcv) {
            RecvOutcome::Received(job) => {
                match job {
                    Job::Shutdown => {
                        shutdowns = 1;
                        exit = WorkerExit::ShutdownReceived;
                        break ;
                    },
                    Job::Work { token: _, request, connection } => {
                        let _ = handle_blocking_job(&application, &globals, request, connection);
                    },
                }
            },
            RecvOutcome::Empty => {
                proof {
                    assert(false);
                }
            },
            RecvOutcome::Disconnected => {
                exit = WorkerExit::ChannelDisconnected;
                break ;
            },
        }
    }
    WorkerReport { exit, shutdowns_consumed: shutdowns }
}

/// The non-blocking worker's dispatch loop over an existing poller: each
/// iteration services at most one fresh job, then drains the poller's
/// readiness events, so neither source starves the other.  The loop ends at
/// the first shutdown marker or on channel disconnect, so at most one
/// marker is ever consumed.
pub fn non_blocking_dispatch<C: NonBlockingWrite, H: Handler, P: Poller<C>>(
    globals: &WSGIGlobals,
    application: &H,
    poller: &mut P,
    rcv: &crossbeam_channel::Receiver<Job<C>>,
) -> (r: WorkerReport)
    ensures
        r.shutdowns_consumed <= 1,
        (r.exit == WorkerExit::ShutdownReceived <==> r.shutdowns_consumed == 1),
        r.exit != WorkerExit::PollerFailed,
{
    let mut state: WorkerState<C> = WorkerState::new();
    let mut events: Vec<Event> = Vec::new();
    let mut exit = WorkerExit::IterationLimit;
    let mut shutdowns: usize = 0;
    let mut fuel: usize = usize::MAX;
    loop
        invariant_except_break
            exit == WorkerExit::IterationLimit,
            shutdowns == 0,
            state.wf(),
        ensures
            shutdowns <= 1,
            (exit == WorkerExit::ShutdownReceived <==> shutdowns == 1),
            exit != WorkerExit::PollerFailed,
        decreases fuel,
    {
        if fuel == 0 {
            break ;
        }
        fuel = fuel - 1;
        // With an empty stash the worker may block to conserve CPU;
        // otherwise it must fall through even with no job ready, so
        // readiness events get serviced.
        let block = !state.has_pending();
        match recv_or_try_recv(block, rcv) {
            RecvOutcome::Received(job) => {
                match job {
                    Job::Shutdown => {
                        shutdowns = 1;
                        exit = WorkerExit::ShutdownReceived;
                        break ;
                    },
                    Job::Work { token, request, connection } => {
                        let _ = handle_new_job(
                            &mut state,
                            poller,
                            application,
                            globals,
                            token,
                            request,
                            connection,
                        );
                    },
                }
            },
            RecvOutcome::Empty => {},
            RecvOutcome::Disconnected => {
                exit = WorkerExit::ChannelDisconnected;
                break ;
            },
        }
        // A poll failure is logged and the iteration carries on; the event
        // buffer then holds whatever the last successful poll delivered.
        let _ = poller.poll(&mut events);
        let mut k: usize = 0;
        while k < events.len()
            invariant
                state.wf(),
                k <= events@.len(),
            decreases events@.len() - k,
        {
            let event = events[k];
            let _ = handle_ready_event(&mut state, poller, &event);
            k = k + 1;
        }
    }
    WorkerReport { exit, shutdowns_consumed: shutdowns }
}

/// The non-blocking worker: owns a fresh readiness poller and multiplexes
/// many half-sent responses while fresh jobs keep arriving.  If the poller
/// cannot be created the worker reports that instead of serving.
#[allow(unused_variables)]
pub fn write_non_blocking_worker<C: NonBlockingWrite, H: Handler, P: Poller<C>>(
    idx: usize,
    server_name: String,
    server_port: String,
    application: H,
    script_name: String,
    rcv: crossbeam_channel::Receiver<Job<C>>,
) -> (r: WorkerReport)
    ensures
        r.shutdowns_consumed <= 1,
        (r.exit == WorkerExit::ShutdownReceived <==> r.shutdowns_consumed == 1),
{
    let globals = WSGIGlobals::new(
        server_name.as_str(),
        server_port.as_str(),
        script_name.as_str(),
    );
    let mut poller: P = match P::new() {
        Ok(p) => p,
        Err(_) => {
            return WorkerReport { exit: WorkerExit::PollerFailed, shutdowns_consumed: 0 };
        },
    };
    non_blocking_dispatch(&globals, &application, &mut poller, &rcv)
}

} // verus!
