use vstd::prelude::*;

use crate::request::{ParseOutcome, WSGIRequest};

verus! {

/// The acceptor's token source: tokens start at one and only count up, so
/// zero — the shutdown marker's value — is never handed out and no token is
/// ever handed out twice.
pub struct TokenAllocator {
    /// The next token to hand out; every token below it and above zero is
    /// spent.
    pub next: usize,
}

/// One allocation step: `token` is what the allocator in state `pre` hands
/// out, leaving it in state `post`.
pub open spec fn allocates(pre: TokenAllocator, post: TokenAllocator, token: usize) -> bool {
    &&& pre.wf()
    &&& token == pre.next
    &&& post.next == pre.next + 1
}

impl TokenAllocator {
    /// Zero stays reserved for the shutdown marker.
    pub open spec fn wf(&self) -> bool {
        self.next >= 1
    }

    /// A fresh allocator; the first token it hands out is one.
    pub fn new() -> (r: TokenAllocator)
        ensures
            r.wf(),
            r.next == 1,
    {
        TokenAllocator { next: 1 }
    }

    /// Hands out the next token: never zero, and never one handed out
    /// before.
    pub fn allocate(&mut self) -> (r: usize)
        requires
            old(self).wf(),
            old(self).next < usize::MAX,
        ensures
            final(self).wf(),
            allocates(*old(self), *final(self), r),
            r != 0,
    {
        let token = self.next;
        self.next = self.next + 1;
        token
    }
}

/// No token is ever assigned to two connections: tokens handed out by any
/// two allocation steps, with any run of further allocations between them,
/// differ, and neither is the shutdown marker's value zero.
pub proof fn lemma_token_uniqueness(
    a0: TokenAllocator,
    a1: TokenAllocator,
    b0: TokenAllocator,
    b1: TokenAllocator,
    t1: usize,
    t2: usize,
)
    requires
        allocates(a0, a1, t1),
        allocates(b0, b1, t2),
        a1.next <= b0.next,
    ensures
        t1 != t2,
        t1 != 0,
        t2 != 0,
{
}

/// What the acceptor does with a connection after reading some bytes.
#[derive(Clone, Copy, Debug, PartialEq, Eq, Structural)]
pub enum AcceptDecision {
    /// The head is not complete yet: keep the connection and read on.
    NeedMore,
    /// The request parsed completely: hand it to the worker pool.
    Dispatch,
    /// The request is malformed or over the size budget: drop it and close
    /// the connection.
    Close,
}

/// One step of the accept-and-parse loop: append the bytes just read,
/// attempt the parse, and decide.  A malformed head closes the connection;
/// a partial head within the size budget asks for more bytes; a partial
/// head already over the budget closes the connection too.
pub fn acceptor_step(request: &mut WSGIRequest, bytes: &[u8], size_budget: usize) -> (r:
    AcceptDecision)
    ensures
        final(request).buffer@ == old(request).buffer@ + bytes@,
        final(request).max_headers == old(request).max_headers,
        final(request).peer_addr == old(request).peer_addr,
        final(request).response == old(request).response,
        r == (match crate::request::spec_parse_outcome(
            old(request).buffer@ + bytes@,
            old(request).max_headers as int,
        ) {
            ParseOutcome::Complete => AcceptDecision::Dispatch,
            ParseOutcome::Malformed => AcceptDecision::Close,
            ParseOutcome::Partial => {
                if old(request).buffer@.len() + bytes@.len()
                    > size_budget { AcceptDecision::Close } else {
                    AcceptDecision::NeedMore
                }
            },
        }),
        (r == AcceptDecision::Dispatch <==> final(request).parsed is Some),
{
    request.append(bytes);
    match request.parse_data() {
        ParseOutcome::Complete => AcceptDecision::Dispatch,
        ParseOutcome::Malformed => AcceptDecision::Close,
        ParseOutcome::Partial => {
            if request.buffer.len() > size_budget {
                AcceptDecision::Close
            } else {
                AcceptDecision::NeedMore
            }
        },
    }
}

} // verus!
