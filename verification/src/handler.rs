use vstd::prelude::*;

use crate::globals::WSGIGlobals;
use crate::request::WSGIRequest;
use crate::response::WSGIResponse;

verus! {

/// The application callback a worker invokes for each dispatched request.
/// An implementation reads the request and leaves a response in its slot; a
/// response it leaves is freshly produced, nothing of it written yet, and
/// terminal, so the worker can stream it out to completion.  Implementations
/// must be safe to call from several worker threads; each worker owns its
/// own clone.
pub trait Handler {
    fn handle(&self, globals: &WSGIGlobals, request: &mut WSGIRequest)
        ensures
            (final(request).response matches Some(resp) ==> resp.wf() && resp.sent == 0
                && resp.last_chunk_or_file_sent),
            final(request).max_headers == old(request).max_headers,
    ;
}

/// A handler that answers every request with one fixed, fully serialized
/// response.
#[derive(Clone)]
pub struct FixedResponseHandler {
    /// The serialized response, status line and headers included.
    pub body: Vec<u8>,
}

impl FixedResponseHandler {
    /// A handler that always answers with `body`.
    pub fn new(body: Vec<u8>) -> (r: FixedResponseHandler)
        ensures
            r.body == body,
    {
        FixedResponseHandler { body }
    }
}

impl Handler for FixedResponseHandler {
    fn handle(&self, globals: &WSGIGlobals, request: &mut WSGIRequest)
        ensures
            (final(request).response matches Some(resp) ==> resp.wf() && resp.sent == 0
                && resp.last_chunk_or_file_sent),
            final(request).max_headers == old(request).max_headers,
            (final(request).response matches Some(resp) ==> {
                &&& resp.current_chunk@ == self.body@
                &&& resp.sent == 0
            }),
            final(request).response is Some,
            final(request).buffer == old(request).buffer,
            final(request).parsed == old(request).parsed,
    {
        request.response = Some(WSGIResponse::from_body(self.body.clone()));
    }
}

} // verus!
