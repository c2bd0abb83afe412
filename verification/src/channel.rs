use vstd::prelude::*;

verus! {

/// The sending side of an unbounded multi-producer multi-consumer channel,
/// as `crossbeam_channel` provides it.  Opaque here: the channel's contents
/// change under concurrent senders and receivers, so nothing deterministic
/// can be stated of them.
#[verifier::external_type_specification]
#[verifier::external_body]
#[verifier::reject_recursive_types(T)]
pub struct ExSender<T>(crossbeam_channel::Sender<T>);

/// The receiving side of the same channel.  Opaque for the same reason.
#[verifier::external_type_specification]
#[verifier::external_body]
#[verifier::reject_recursive_types(T)]
pub struct ExReceiver<T>(crossbeam_channel::Receiver<T>);

/// What one receive attempt yielded.
pub enum RecvOutcome<T> {
    /// A message arrived.
    Received(T),
    /// No message was ready (only a non-blocking attempt reports this).
    Empty,
    /// Every sender is gone and the channel is drained.
    Disconnected,
}

/// Relies on `crossbeam_channel::unbounded`: a fresh channel whose sends
/// never block.
#[verifier::external_body]
pub(crate) fn channel_unbounded<T>() -> (r: (
    crossbeam_channel::Sender<T>,
    crossbeam_channel::Receiver<T>,
)) {
    crossbeam_channel::unbounded()
}

/// Relies on `crossbeam_channel::Receiver::clone`: another handle onto the
/// same queue; each message is received by exactly one handle.
#[verifier::external_body]
pub(crate) fn channel_receiver_clone<T>(receiver: &crossbeam_channel::Receiver<T>) -> (r:
    crossbeam_channel::Receiver<T>) {
    receiver.clone()
}

/// Relies on `crossbeam_channel::Sender::send`: on an unbounded channel it
/// never blocks, and it fails exactly when every receiver is gone, handing
/// the unsent message back.
#[verifier::external_body]
pub(crate) fn channel_send<T>(sender: &crossbeam_channel::Sender<T>, message: T) -> (r: Result<
    (),
    T,
>)
    ensures
        (r matches Err(m) ==> m == message),
{
    match sender.send(message) {
        Ok(_) => Ok(()),
        Err(e) => Err(e.0),
    }
}

/// Relies on `crossbeam_channel::Receiver::recv`: blocks until a message
/// arrives or the channel disconnects, so it never reports `Empty`.
#[verifier::external_body]
pub(crate) fn channel_recv<T>(receiver: &crossbeam_channel::Receiver<T>) -> (r: RecvOutcome<T>)
    ensures
        !(r is Empty),
{
    match receiver.recv() {
        Ok(m) => RecvOutcome::Received(m),
        Err(_) => RecvOutcome::Disconnected,
    }
}

/// Relies on `crossbeam_channel::Receiver::try_recv`: returns at once with a
/// message, with `Empty`, or with `Disconnected`.
#[verifier::external_body]
pub(crate) fn channel_try_recv<T>(receiver: &crossbeam_channel::Receiver<T>) -> (r: RecvOutcome<T>) {
    match receiver.try_recv() {
        Ok(m) => RecvOutcome::Received(m),
        Err(crossbeam_channel::TryRecvError::Empty) => RecvOutcome::Empty,
        Err(crossbeam_channel::TryRecvError::Disconnected) => RecvOutcome::Disconnected,
    }
}

} // verus!
