use vstd::prelude::*;

use crate::ioerror::IoKind;

verus! {

/// One readiness notification: the token a connection was registered under,
/// and whether the event reports writability.
#[derive(Clone, Copy, Debug, PartialEq, Eq, Structural)]
pub struct Event {
    /// The token the connection was registered under.
    pub token: usize,
    /// The event's interest includes writable readiness.
    pub writable: bool,
}

/// The readiness notification primitive a non-blocking worker owns:
/// registering a stashed connection for writable readiness under a token,
/// deregistering it before the connection is dropped on normal completion,
/// and a non-blocking poll that replaces the event buffer's contents.
pub trait Poller<C>: Sized {
    fn new() -> (r: Result<Self, IoKind>);

    /// Registering changes only the poller's bookkeeping, never the
    /// connection itself.
    fn register(&mut self, connection: &mut C, token: usize) -> (r: Result<(), IoKind>)
        ensures
            *final(connection) == *old(connection),
    ;

    /// Deregistering changes only the poller's bookkeeping, never the
    /// connection itself.
    fn deregister(&mut self, connection: &mut C, token: usize) -> (r: Result<(), IoKind>)
        ensures
            *final(connection) == *old(connection),
    ;

    fn poll(&mut self, events: &mut Vec<Event>) -> (r: Result<(), IoKind>);
}

/// A deterministic in-memory poller: registrations are recorded, and each
/// `poll` call delivers the next scripted batch of events; after the script
/// is exhausted every poll is empty.  `Poller::new` yields an unscripted
/// poller that never reports an event, like a real poller whose descriptors
/// never become ready.
pub struct SimPoller {
    /// Tokens currently registered, in registration order.
    pub registered: Vec<usize>,
    /// Batches of events to deliver, one batch per `poll` call.
    pub script: Vec<Vec<Event>>,
    /// Index of the next scripted batch.
    pub script_pos: usize,
}

impl SimPoller {
    /// A poller that delivers the given event batches, one per poll.
    pub fn with_script(script: Vec<Vec<Event>>) -> (r: SimPoller)
        ensures
            r.registered@.len() == 0,
            r.script == script,
            r.script_pos == 0,
    {
        SimPoller { registered: Vec::new(), script, script_pos: 0 }
    }

    /// Reports whether a token is currently registered.
    pub fn is_registered(&self, token: usize) -> (r: bool)
        ensures
            r == self.registered@.contains(token),
    {
        let mut k: usize = 0;
        while k < self.registered.len()
            invariant
                k <= self.registered@.len(),
                forall|j: int| 0 <= j < k ==> self.registered@[j] != token,
            decreases self.registered@.len() - k,
        {
            if self.registered[k] == token {
                return true;
            }
            k = k + 1;
        }
        false
    }
}

impl Poller<crate::transport::BufferConnection> for SimPoller {
    fn new() -> (r: Result<SimPoller, IoKind>)
        ensures
            (r matches Ok(p) ==> p.registered@.len() == 0 && p.script@.len() == 0),
            r is Ok,
    {
        Ok(SimPoller { registered: Vec::new(), script: Vec::new(), script_pos: 0 })
    }

    fn register(&mut self, connection: &mut crate::transport::BufferConnection, token: usize) -> (r: Result<(), IoKind>)
        ensures
            final(self).registered@ == old(self).registered@.push(token),
            final(self).script == old(self).script,
            final(self).script_pos == old(self).script_pos,
            r is Ok,
            *final(connection) == *old(connection),
    {
        self.registered.push(token);
        Ok(())
    }

    fn deregister(&mut self, connection: &mut crate::transport::BufferConnection, token: usize) -> (r: Result<(), IoKind>)
        ensures
            final(self).registered@ == old(self).registered@.filter(|t: usize| t != token),
            final(self).script == old(self).script,
            final(self).script_pos == old(self).script_pos,
            r is Ok,
            *final(connection) == *old(connection),
    {
        let ghost pred = |t: usize| t != token;
        let ghost orig: Seq<usize> = self.registered@;
        let mut kept: Vec<usize> = Vec::new();
        let mut k: usize = 0;
        while k < self.registered.len()
            invariant
                k <= orig.len(),
                self.registered@ == orig,
                kept@ == orig.subrange(0, k as int).filter(pred),
                forall|t: usize| #[trigger] pred(t) <==> t != token,
            decreases orig.len() - k,
        {
            let ghost pre: Seq<usize> = orig.subrange(0, k as int);
            let ghost post: Seq<usize> = orig.subrange(0, k as int + 1);
            if self.registered[k] != token {
                kept.push(self.registered[k]);
            }
            proof {
                assert(post =~= pre.push(orig[k as int]));
                pre.lemma_filter_push(orig[k as int], pred);
                assert(kept@ == post.filter(pred));
            }
            k = k + 1;
        }
        proof {
            assert(orig.subrange(0, orig.len() as int) =~= orig);
        }
        self.registered = kept;
        Ok(())
    }

    fn poll(&mut self, events: &mut Vec<Event>) -> (r: Result<(), IoKind>)
        ensures
            final(self).registered == old(self).registered,
            final(self).script == old(self).script,
            r is Ok,
            old(self).script_pos < old(self).script@.len() ==> {
                &&& final(events)@ == old(self).script@[old(self).script_pos as int]@
                &&& final(self).script_pos == old(self).script_pos + 1
            },
            old(self).script_pos >= old(self).script@.len() ==> {
                &&& final(events)@.len() == 0
                &&& final(self).script_pos == old(self).script_pos
            },
    {
        events.clear();
        if self.script_pos < self.script.len() {
            let ghost batch_view: Seq<Event> = self.script@[self.script_pos as int]@;
            let batch: &Vec<Event> = &self.script[self.script_pos];
            let mut k: usize = 0;
            while k < batch.len()
                invariant
                    k <= batch@.len(),
                    batch@ == batch_view,
                    events@ == batch_view.subrange(0, k as int),
                decreases batch@.len() - k,
            {
                events.push(batch[k]);
                k = k + 1;
            }
            proof {
                assert(events@ =~= batch_view);
            }
            self.script_pos = self.script_pos + 1;
        }
        Ok(())
    }
}

} // verus!
