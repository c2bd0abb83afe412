use vstd::prelude::*;

verus! {

/// Classification of an I/O failure as the worker loops see it.  The OS error
/// zoo is collapsed to the kinds the gateway core reacts to: `WouldBlock`
/// drives the stash-and-resume path, everything else is fatal for the
/// affected connection.
#[derive(Clone, Copy, Debug, PartialEq, Eq, Structural)]
pub enum IoKind {
    /// The descriptor is not ready; retry when the poller reports readiness.
    WouldBlock,
    /// The peer went away mid-write.
    BrokenPipe,
    /// A write call reported zero bytes of progress on a non-empty buffer.
    WriteZero,
    /// Any other failure.
    Other,
}

/// Classifies an I/O error as "retry when ready" versus fatal: only the
/// `WouldBlock` kind qualifies.
pub fn would_block(err: &IoKind) -> (r: bool)
    ensures
        r <==> (*err == IoKind::WouldBlock),
{
    matches!(err, IoKind::WouldBlock)
}

} // verus!
