//! Core of a multi-threaded, event-driven HTTP/1.1 gateway.
//!
//! Accepted connections are handed, together with the parsed request, to a
//! pool of worker threads.  A blocking worker writes each response in a tight
//! loop; a non-blocking worker multiplexes many half-written responses over a
//! readiness poller.  The pool shuts down gracefully through in-band shutdown
//! jobs, one per worker.

pub mod acceptor;
pub mod activation;
pub mod addr;
pub mod channel;
pub mod globals;
pub mod handler;
pub mod ioerror;
pub mod poller;
pub mod request;
pub mod response;
pub mod transport;
pub mod workerpool;
pub mod workers;
