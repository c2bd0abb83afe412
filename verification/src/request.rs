use vstd::prelude::*;

use crate::response::WSGIResponse;

verus! {

/// What one attempt to interpret the accumulated bytes yielded.
#[derive(Clone, Copy, Debug, PartialEq, Eq, Structural)]
pub enum ParseOutcome {
    /// A full request head is present and within the header budget.
    Complete,
    /// The head terminator has not arrived yet; read more bytes.
    Partial,
    /// The head holds more header lines than the request allows.
    Malformed,
}

/// The parsed view of a complete request head.
#[derive(Clone, Copy, Debug, PartialEq, Eq, Structural)]
pub struct ParsedHead {
    /// Length of the head including the terminating empty line.
    pub head_len: usize,
    /// Number of header lines after the request line.
    pub header_count: usize,
}

/// The head terminator `CRLF CRLF` starts at position `i`.
pub open spec fn terminator_at(b: Seq<u8>, i: int) -> bool {
    &&& 0 <= i
    &&& i + 4 <= b.len()
    &&& b[i] == 13u8
    &&& b[i + 1] == 10u8
    &&& b[i + 2] == 13u8
    &&& b[i + 3] == 10u8
}

/// Some head terminator occurs in the buffer.
pub open spec fn has_terminator(b: Seq<u8>) -> bool {
    exists|i: int| terminator_at(b, i)
}

/// `i` is the position of the earliest head terminator.
pub open spec fn is_first_terminator(b: Seq<u8>, i: int) -> bool {
    &&& terminator_at(b, i)
    &&& forall|j: int| 0 <= j < i ==> !terminator_at(b, j)
}

/// A `CRLF` pair starts at position `i`.
pub open spec fn crlf_at(b: Seq<u8>, i: int) -> bool {
    &&& 0 <= i
    &&& i + 2 <= b.len()
    &&& b[i] == 13u8
    &&& b[i + 1] == 10u8
}

/// How many `CRLF` pairs start at positions below `upto`.
pub open spec fn crlf_count_before(b: Seq<u8>, upto: int) -> int
    decreases upto,
{
    if upto <= 0 {
        0
    } else {
        crlf_count_before(b, upto - 1) + if crlf_at(b, upto - 1) {
            1int
        } else {
            0int
        }
    }
}

/// Number of header lines in a head whose terminator starts at `term`: every
/// line before the terminator ends in a `CRLF` at or before `term`, and the
/// first of those closes the request line, not a header.
pub open spec fn header_line_count(b: Seq<u8>, term: int) -> int {
    crlf_count_before(b, term + 1) - 1
}

/// What parsing the buffer against a header budget must yield.
pub open spec fn spec_parse_outcome(b: Seq<u8>, max_headers: int) -> ParseOutcome {
    if !has_terminator(b) {
        ParseOutcome::Partial
    } else {
        let i = choose|i: int| is_first_terminator(b, i);
        if header_line_count(b, i) > max_headers {
            ParseOutcome::Malformed
        } else {
            ParseOutcome::Complete
        }
    }
}

/// Wherever some terminator occurs, an earliest one occurs.
pub proof fn lemma_first_terminator_exists(b: Seq<u8>, k: int)
    requires
        terminator_at(b, k),
    ensures
        exists|i: int| is_first_terminator(b, i),
    decreases k,
{
    if forall|j: int| 0 <= j < k ==> !terminator_at(b, j) {
        assert(is_first_terminator(b, k));
    } else {
        let j = choose|j: int| 0 <= j < k && terminator_at(b, j);
        lemma_first_terminator_exists(b, j);
    }
}

/// The earliest terminator position is unique.
pub proof fn lemma_first_terminator_unique(b: Seq<u8>, i: int, j: int)
    requires
        is_first_terminator(b, i),
        is_first_terminator(b, j),
    ensures
        i == j,
{
    if i < j {
        assert(!terminator_at(b, i));
    }
    if j < i {
        assert(!terminator_at(b, j));
    }
}

/// The count of `CRLF` starts never goes negative and never exceeds the
/// range it counts over.
pub proof fn lemma_crlf_count_bounds(b: Seq<u8>, upto: int)
    requires
        upto >= 0,
    ensures
        0 <= crlf_count_before(b, upto) <= upto,
    decreases upto,
{
    if upto > 0 {
        lemma_crlf_count_bounds(b, upto - 1);
    }
}

/// An accumulating byte buffer for one inbound request, together with the
/// parsed view of its head and the slot where the handler leaves the
/// response.  Created by the acceptor on first bytes received, filled until
/// the head parses as complete, then handed to the worker pool.
pub struct WSGIRequest {
    /// The largest number of header lines a request may carry.
    pub max_headers: usize,
    /// The peer address the connection reported at accept time.
    pub peer_addr: String,
    /// The bytes received so far.
    pub buffer: Vec<u8>,
    /// The parsed view of the head, once parsing succeeded.
    pub parsed: Option<ParsedHead>,
    /// The response the handler produced, if any yet.
    pub response: Option<WSGIResponse>,
}

impl WSGIRequest {
    /// An empty request with the given header budget and peer address.
    pub fn new(max_headers: usize, peer_addr: String) -> (r: WSGIRequest)
        requires
            max_headers >= 1,
        ensures
            r.max_headers == max_headers,
            r.peer_addr == peer_addr,
            r.buffer@.len() == 0,
            r.parsed is None,
            r.response is None,
    {
        WSGIRequest { max_headers, peer_addr, buffer: Vec::new(), parsed: None, response: None }
    }

    /// Appends freshly read bytes to the buffer.
    pub fn append(&mut self, data: &[u8])
        ensures
            final(self).buffer@ == old(self).buffer@ + data@,
            final(self).max_headers == old(self).max_headers,
            final(self).peer_addr == old(self).peer_addr,
            final(self).parsed == old(self).parsed,
            final(self).response == old(self).response,
    {
        self.buffer.extend_from_slice(data);
    }

    /// Moves the handler's response out of the request, if one is present.
    pub fn take_response(&mut self) -> (r: Option<WSGIResponse>)
        ensures
            r == old(self).response,
            final(self).response is None,
            final(self).buffer == old(self).buffer,
            final(self).max_headers == old(self).max_headers,
            final(self).peer_addr == old(self).peer_addr,
            final(self).parsed == old(self).parsed,
    {
        self.response.take()
    }

    /// Attempts to interpret the accumulated bytes as a request head: the
    /// head is complete at the earliest `CRLF CRLF`, and the header lines
    /// before it must not outnumber `max_headers`.  On `Complete` the parsed
    /// view is recorded; otherwise it is cleared.
    pub fn parse_data(&mut self) -> (r: ParseOutcome)
        ensures
            final(self).buffer == old(self).buffer,
            final(self).max_headers == old(self).max_headers,
            final(self).peer_addr == old(self).peer_addr,
            final(self).response == old(self).response,
            r == spec_parse_outcome(old(self).buffer@, old(self).max_headers as int),
            (r == ParseOutcome::Complete <==> final(self).parsed is Some),
            (final(self).parsed matches Some(h) ==> {
                &&& h.head_len >= 4
                &&& is_first_terminator(old(self).buffer@, h.head_len - 4)
                &&& h.header_count == header_line_count(old(self).buffer@, h.head_len - 4)
                &&& h.header_count <= old(self).max_headers
            }),
    {
        let ghost b: Seq<u8> = self.buffer@;
        let len: usize = self.buffer.len();
        if len < 4 {
            self.parsed = None;
            proof {
                assert(!has_terminator(b));
            }
            return ParseOutcome::Partial;
        }
        let limit: usize = len - 4;
        let mut i: usize = 0;
        let mut found: bool = false;
        let mut first: usize = 0;
        while i <= limit
            invariant_except_break
                !found,
                i <= limit + 1,
            invariant
                limit == len - 4,
                len == b.len(),
                len >= 4,
                b == self.buffer@,
                forall|j: int| 0 <= j < i ==> !terminator_at(b, j),
            ensures
                found ==> first <= limit && is_first_terminator(b, first as int),
                !found ==> i == limit + 1 && (forall|j: int| 0 <= j < i ==> !terminator_at(b, j)),
            decreases limit + 1 - i,
        {
            if self.buffer[i] == 13 && self.buffer[i + 1] == 10 && self.buffer[i + 2] == 13
                && self.buffer[i + 3] == 10 {
                found = true;
                first = i;
                break ;
            }
            i = i + 1;
        }
        if !found {
            self.parsed = None;
            proof {
                assert forall|j: int| !terminator_at(b, j) by {
                    if terminator_at(b, j) {
                        assert(0 <= j <= limit);
                    }
                }
                assert(!has_terminator(b));
            }
            return ParseOutcome::Partial;
        }
        let term: usize = first;
        let mut count: usize = 0;
        let mut p: usize = 0;
        while p <= term
            invariant
                p <= term + 1,
                term <= limit,
                limit == len - 4,
                len == b.len(),
                len >= 4,
                b == self.buffer@,
                count == crlf_count_before(b, p as int),
                count <= p,
            decreases term + 1 - p,
        {
            if self.buffer[p] == 13 && self.buffer[p + 1] == 10 {
                count = count + 1;
            }
            p = p + 1;
        }
        proof {
            assert(crlf_at(b, term as int));
            assert(count == crlf_count_before(b, term + 1));
            assert(crlf_count_before(b, term + 1) == crlf_count_before(b, term as int) + 1);
            lemma_crlf_count_bounds(b, term as int);
            lemma_first_terminator_exists(b, term as int);
            lemma_first_terminator_unique(
                b,
                term as int,
                choose|i0: int| is_first_terminator(b, i0),
            );
        }
        let header_count: usize = count - 1;
        if header_count > self.max_headers {
            self.parsed = None;
            ParseOutcome::Malformed
        } else {
            self.parsed = Some(ParsedHead { head_len: term + 4, header_count });
            ParseOutcome::Complete
        }
    }
}

} // verus!
