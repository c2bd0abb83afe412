use vstd::prelude::*;

use crate::activation::ActivationError;
use crate::channel::channel_send;
use crate::ioerror::IoKind;

verus! {

/// A byte sink the workers stream a response into.  `write` performs at most
/// one write attempt and reports how many bytes the sink accepted.
pub trait Write {
    /// The bytes this sink has accepted so far, oldest first.  An
    /// implementation the verifier reads overrides this with its real
    /// content, as [`BufferConnection`] does; for an implementation outside
    /// the verifier's view it stands abstractly for the bytes handed to the
    /// operating system, and the default is never relied on.
    open spec fn absorbed(&self) -> Seq<u8> {
        Seq::empty()
    }

    /// Attempts to write `buf` once.  `Ok(n)` means exactly the first `n`
    /// bytes were accepted, in order, behind everything accepted before; an
    /// implementation never claims more than it was given, and a failed
    /// attempt accepts nothing.
    fn write(&mut self, buf: &[u8]) -> (r: Result<usize, IoKind>)
        ensures
            (r matches Ok(n) ==> n <= buf@.len() && final(self).absorbed() == old(self).absorbed()
                + buf@.subrange(0, n as int)),
            (r matches Err(_) ==> final(self).absorbed() == old(self).absorbed()),
    ;
}

/// A byte source the acceptor drains inbound request bytes from, plus the
/// peer's address for the request metadata.
pub trait Read {
    /// Appends the bytes currently available to `out` and reports how many
    /// arrived; `Ok(0)` means end of stream.
    fn read_into(&mut self, out: &mut Vec<u8>) -> (r: Result<usize, IoKind>)
        ensures
            (r matches Ok(n) ==> final(out)@.len() == old(out)@.len() + n
                && final(out)@.subrange(0, old(out)@.len() as int) == old(out)@),
            (r matches Err(_) ==> final(out)@ == old(out)@),
    ;

    fn peer_addr(&self) -> String;
}

/// Switches a connection's descriptor into blocking mode.
pub trait SetBlocking {
    fn set_blocking(&mut self) -> (r: Result<(), IoKind>);
}

/// Switches a connection's descriptor into non-blocking mode.
pub trait SetNonBlocking {
    fn set_nonblocking(&mut self) -> (r: Result<(), IoKind>);
}

/// What the non-blocking worker needs from a connection: a sink that can
/// travel to a worker thread.
pub trait NonBlockingWrite: Write + Send {

}

impl<T: Write + Send> NonBlockingWrite for T {

}

/// A full-duplex connection.
pub trait Socket: Write + Read + Send {

}

impl<T: Write + Read + Send> Socket for T {

}

/// What the blocking worker needs from a connection: a full-duplex socket
/// whose descriptor it may switch into blocking mode.
pub trait BlockingWrite: Socket + SetBlocking {

}

impl<T: Socket + SetBlocking> BlockingWrite for T {

}

/// Commonalities of stream listeners: accepting a connection and reporting
/// the local address.
pub trait Listening {
    type Connected;

    fn accept(&self) -> (r: Result<Self::Connected, IoKind>);

    fn local_addr_string(&self) -> (r: String);
}

/// A listener the acceptor can own.
pub trait Listener: Listening {

}

impl<L: Listening> Listener for L {

}

/// Constructing a listener from a socket handed over by the init system.
pub trait SocketActivation: Sized {
    fn from_active_socket() -> (r: Result<Self, ActivationError>);
}

/// One scripted reaction of a [`BufferConnection`] to a write attempt.
#[derive(Clone, Copy, Debug, PartialEq, Eq, Structural)]
pub enum WriteStep {
    /// Accept up to this many bytes.
    Accept(usize),
    /// Report `WouldBlock`.
    Block,
    /// Fail with the given error kind.
    Fail(IoKind),
}

/// An in-memory connection.  Write attempts follow `script` step by step;
/// once the script is exhausted every write is accepted in full.  Everything
/// accepted accumulates in `written`.
pub struct BufferConnection {
    /// Bytes the connection has accepted so far.
    pub written: Vec<u8>,
    /// Scripted reactions to the next write attempts.
    pub script: Vec<WriteStep>,
    /// Index of the next script step.
    pub cursor: usize,
    /// Bytes a reader will receive.
    pub inbound: Vec<u8>,
    /// How much of `inbound` has been read.
    pub inbound_pos: usize,
    /// The peer address reported for this connection.
    pub peer: String,
    /// Whether the descriptor is in blocking mode.
    pub blocking: bool,
    /// A label under which accepted bytes are reported on `mirror`.
    pub id: usize,
    /// Where accepted bytes are reported, so a test can observe what a
    /// worker wrote after the connection itself is gone.
    pub mirror: Option<crossbeam_channel::Sender<(usize, Vec<u8>)>>,
}

impl BufferConnection {
    /// A connection that accepts everything immediately.
    pub fn new() -> (r: BufferConnection)
        ensures
            r.written@.len() == 0,
            r.script@.len() == 0,
            r.cursor == 0,
            r.inbound@.len() == 0,
            r.inbound_pos == 0,
            !r.blocking,
    {
        BufferConnection {
            written: Vec::new(),
            script: Vec::new(),
            cursor: 0,
            inbound: Vec::new(),
            inbound_pos: 0,
            peer: String::new(),
            blocking: false,
            id: 0,
            mirror: None,
        }
    }

    /// A connection whose write attempts follow the given script.
    pub fn with_script(script: Vec<WriteStep>) -> (r: BufferConnection)
        ensures
            r.written@.len() == 0,
            r.script == script,
            r.cursor == 0,
            !r.blocking,
    {
        BufferConnection {
            written: Vec::new(),
            script,
            cursor: 0,
            inbound: Vec::new(),
            inbound_pos: 0,
            peer: String::new(),
            blocking: false,
            id: 0,
            mirror: None,
        }
    }

    /// A connection whose accepted bytes are also reported on `mirror`,
    /// labelled `id`.
    pub fn with_mirror(
        id: usize,
        script: Vec<WriteStep>,
        mirror: crossbeam_channel::Sender<(usize, Vec<u8>)>,
    ) -> (r: BufferConnection)
        ensures
            r.written@.len() == 0,
            r.script == script,
            r.cursor == 0,
            r.id == id,
            !r.blocking,
    {
        BufferConnection {
            written: Vec::new(),
            script,
            cursor: 0,
            inbound: Vec::new(),
            inbound_pos: 0,
            peer: String::new(),
            blocking: false,
            id,
            mirror: Some(mirror),
        }
    }

    /// Reports freshly accepted bytes on the mirror, if one is attached.
    fn report(&self, bytes: &[u8]) {
        match &self.mirror {
            Some(sender) => {
                let copy = vstd::slice::slice_to_vec(bytes);
                let _ = channel_send(sender, (self.id, copy));
            },
            None => {},
        }
    }

    /// The scripted reaction to the next write attempt, if any is left.
    pub open spec fn next_step(&self) -> Option<WriteStep> {
        if self.cursor < self.script@.len() {
            Some(self.script@[self.cursor as int])
        } else {
            None
        }
    }
}

impl Write for BufferConnection {
    open spec fn absorbed(&self) -> Seq<u8> {
        self.written@
    }

    fn write(&mut self, buf: &[u8]) -> (r: Result<usize, IoKind>)
        ensures
            (r matches Ok(n) ==> n <= buf@.len()),
            old(self).next_step() matches Some(step) ==> {
                &&& final(self).cursor == old(self).cursor + 1
                &&& final(self).script == old(self).script
                &&& match step {
                    WriteStep::Accept(cap) => {
                        let n = if cap < buf@.len() { cap as int } else { buf@.len() as int };
                        &&& r == Ok::<usize, IoKind>(n as usize)
                        &&& final(self).written@ == old(self).written@ + buf@.subrange(0, n)
                    },
                    WriteStep::Block => {
                        &&& r == Err::<usize, IoKind>(IoKind::WouldBlock)
                        &&& final(self).written@ == old(self).written@
                    },
                    WriteStep::Fail(k) => {
                        &&& r == Err::<usize, IoKind>(k)
                        &&& final(self).written@ == old(self).written@
                    },
                }
            },
            old(self).next_step() is None ==> {
                &&& r == Ok::<usize, IoKind>(buf@.len() as usize)
                &&& final(self).written@ == old(self).written@ + buf@
                &&& final(self).cursor == old(self).cursor
            },
    {
        if self.cursor < self.script.len() {
            let step = self.script[self.cursor];
            self.cursor = self.cursor + 1;
            match step {
                WriteStep::Accept(cap) => {
                    let n: usize = if cap < buf.len() {
                        cap
                    } else {
                        buf.len()
                    };
                    let part = vstd::slice::slice_subrange(buf, 0, n);
                    self.written.extend_from_slice(part);
                    self.report(part);
                    Ok(n)
                },
                WriteStep::Block => Err(IoKind::WouldBlock),
                WriteStep::Fail(k) => Err(k),
            }
        } else {
            self.written.extend_from_slice(buf);
            self.report(buf);
            proof {
                assert(buf@.subrange(0, buf@.len() as int) =~= buf@);
            }
            Ok(buf.len())
        }
    }
}

impl Read for BufferConnection {
    fn read_into(&mut self, out: &mut Vec<u8>) -> (r: Result<usize, IoKind>)
        ensures
            (r matches Ok(n) ==> final(out)@.len() == old(out)@.len() + n
                && final(out)@.subrange(0, old(out)@.len() as int) == old(out)@),
            (r matches Err(_) ==> final(out)@ == old(out)@),
            old(self).inbound_pos <= old(self).inbound@.len() ==> (r matches Ok(n) && {
                &&& n == old(self).inbound@.len() - old(self).inbound_pos
                &&& final(out)@ == old(out)@ + old(self).inbound@.subrange(
                    old(self).inbound_pos as int,
                    old(self).inbound@.len() as int,
                )
            }),
            final(self).inbound_pos == final(self).inbound@.len(),
    {
        let pos: usize = if self.inbound_pos > self.inbound.len() {
            self.inbound.len()
        } else {
            self.inbound_pos
        };
        let n: usize = self.inbound.len() - pos;
        let part = vstd::slice::slice_subrange(self.inbound.as_slice(), pos, self.inbound.len());
        out.extend_from_slice(part);
        self.inbound_pos = self.inbound.len();
        proof {
            assert(out@.subrange(0, old(out)@.len() as int) =~= old(out)@);
        }
        Ok(n)
    }

    fn peer_addr(&self) -> (r: String) {
        self.peer.clone()
    }
}

impl SetBlocking for BufferConnection {
    fn set_blocking(&mut self) -> (r: Result<(), IoKind>)
        ensures
            final(self).blocking,
            r is Ok,
            final(self).written == old(self).written,
            final(self).script == old(self).script,
            final(self).cursor == old(self).cursor,
    {
        self.blocking = true;
        Ok(())
    }
}

impl SetNonBlocking for BufferConnection {
    fn set_nonblocking(&mut self) -> (r: Result<(), IoKind>)
        ensures
            !final(self).blocking,
            r is Ok,
            final(self).written == old(self).written,
            final(self).script == old(self).script,
            final(self).cursor == old(self).cursor,
    {
        self.blocking = false;
        Ok(())
    }
}

} // verus!
