use vstd::prelude::*;

use crate::ioerror::IoKind;
use crate::transport::Write;

verus! {

/// A response being streamed to a connection.  The handler fills
/// `current_chunk`; `sent` tracks how much of it the connection has accepted;
/// `last_chunk_or_file_sent` marks that no further data will follow, so the
/// response is terminal once the chunk is drained.  A worker also sets the
/// flag to force completion after a fatal write error.
pub struct WSGIResponse {
    /// The bytes to stream out.
    pub current_chunk: Vec<u8>,
    /// How many bytes of `current_chunk` the connection has accepted.
    pub sent: usize,
    /// No data follows the current chunk.
    pub last_chunk_or_file_sent: bool,
}

impl WSGIResponse {
    /// The write position never runs past the chunk.
    pub open spec fn wf(&self) -> bool {
        self.sent <= self.current_chunk@.len()
    }

    /// The response is fully serialized.
    pub open spec fn spec_complete(&self) -> bool {
        self.sent == self.current_chunk@.len() && self.last_chunk_or_file_sent
    }

    /// An empty, not yet terminal response.
    pub fn new() -> (r: WSGIResponse)
        ensures
            r.wf(),
            r.current_chunk@.len() == 0,
            r.sent == 0,
            !r.last_chunk_or_file_sent,
    {
        WSGIResponse { current_chunk: Vec::new(), sent: 0, last_chunk_or_file_sent: false }
    }

    /// A terminal response carrying the whole serialized body at once.
    pub fn from_body(body: Vec<u8>) -> (r: WSGIResponse)
        ensures
            r.wf(),
            r.current_chunk == body,
            r.sent == 0,
            r.last_chunk_or_file_sent,
    {
        WSGIResponse { current_chunk: body, sent: 0, last_chunk_or_file_sent: true }
    }

    /// Reports whether the response is in its terminal state.
    pub fn complete(&self) -> (r: bool)
        ensures
            r == self.spec_complete(),
    {
        self.sent == self.current_chunk.len() && self.last_chunk_or_file_sent
    }

    /// Performs at most one write attempt on `connection` and returns
    /// `Ok(done)` with `done` true iff the response is now fully serialized.
    /// A connection that accepts zero bytes of a non-empty remainder is
    /// reported as `WriteZero`, so an `Ok(false)` without progress can only
    /// mean the chunk is drained but not yet marked terminal.
    pub fn write_chunk<C: Write>(&mut self, connection: &mut C) -> (r: Result<bool, IoKind>)
        requires
            old(self).wf(),
        ensures
            final(self).wf(),
            final(self).current_chunk == old(self).current_chunk,
            final(self).last_chunk_or_file_sent == old(self).last_chunk_or_file_sent,
            old(self).sent <= final(self).sent,
            (r matches Ok(done) ==> done == final(self).spec_complete()),
            (r == Ok::<bool, IoKind>(false) ==> old(self).sent < final(self).sent
                || final(self).sent == final(self).current_chunk@.len()),
            (r matches Err(_) ==> final(self).sent == old(self).sent),
            final(connection).absorbed() == old(connection).absorbed()
                + old(self).current_chunk@.subrange(
                old(self).sent as int,
                final(self).sent as int,
            ),
    {
        let ghost chunk: Seq<u8> = self.current_chunk@;
        let ghost entry_sent: int = self.sent as int;
        let len: usize = self.current_chunk.len();
        let rest = vstd::slice::slice_subrange(self.current_chunk.as_slice(), self.sent, len);
        match connection.write(rest) {
            Ok(n) => {
                proof {
                    assert(rest@.subrange(0, n as int) =~= chunk.subrange(
                        entry_sent,
                        entry_sent + n,
                    ));
                }
                if n == 0 && self.sent < len {
                    proof {
                        assert(chunk.subrange(entry_sent, entry_sent) =~= Seq::<u8>::empty());
                        assert(old(connection).absorbed() + Seq::<u8>::empty() =~= old(
                            connection,
                        ).absorbed());
                    }
                    return Err(IoKind::WriteZero);
                }
                self.sent = self.sent + n;
                Ok(self.sent == len && self.last_chunk_or_file_sent)
            },
            Err(k) => {
                proof {
                    assert(chunk.subrange(entry_sent, entry_sent) =~= Seq::<u8>::empty());
                    assert(old(connection).absorbed() + Seq::<u8>::empty() =~= old(
                        connection,
                    ).absorbed());
                }
                Err(k)
            },
        }
    }
}

} // verus!
