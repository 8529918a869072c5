use vstd::prelude::*;
use crate::response::IncomingResponse;

verus! {

/// The state of the one-shot response slot.
pub enum ReceiverState {
    /// No value was produced yet.
    Pending,
    /// The one value was produced and not yet retrieved; the producer may
    /// deliver a response or a handler error message.
    Ready(Result<IncomingResponse, String>),
    /// The producer went away without ever producing a value — a protocol
    /// violation, distinct from `Pending`.
    ProducerDropped,
    /// The one value was retrieved.
    Consumed,
}

/// The error a poll of the receiver can report.
pub enum ChannelError {
    /// The producer was dropped before producing.
    ProducerDropped,
    /// The handler path delivered an error instead of a response.
    Handler(String),
    /// The one value was already retrieved.
    AlreadyRetrieved,
}

/// What one poll of a receiver in a given state returns.
pub open spec fn poll_result(s: ReceiverState) -> Result<Option<IncomingResponse>, ChannelError> {
    match s {
        ReceiverState::Pending => Ok(None),
        ReceiverState::Ready(Ok(resp)) => Ok(Some(resp)),
        ReceiverState::Ready(Err(msg)) => Err(ChannelError::Handler(msg)),
        ReceiverState::ProducerDropped => Err(ChannelError::ProducerDropped),
        ReceiverState::Consumed => Err(ChannelError::AlreadyRetrieved),
    }
}

/// The state a receiver is left in after one poll.
pub open spec fn poll_next(s: ReceiverState) -> ReceiverState {
    match s {
        ReceiverState::Ready(_) => ReceiverState::Consumed,
        _ => s,
    }
}

/// Single-producer/single-consumer, at-most-one-value response channel.
///
/// The slot starts `Pending` and transitions to a terminal state exactly
/// once: to `Ready` by the one production, or to `ProducerDropped` when
/// the producer goes away empty-handed; it is never reversed.
pub struct ResponseReceiver {
    pub state: ReceiverState,
}

/// A fresh, still-pending response slot.
pub fn new_response() -> (r: ResponseReceiver)
    ensures
        r.state is Pending,
{
    ResponseReceiver { state: ReceiverState::Pending }
}

impl ResponseReceiver {
    /// Producer side: delivers the one value.
    ///
    /// Succeeds exactly when no value was produced before and the producer
    /// was not dropped; a second production fails explicitly.
    pub fn produce(&mut self, value: Result<IncomingResponse, String>) -> (r: Result<(), ()>)
        ensures
            r is Ok <==> old(self).state is Pending,
            r is Ok ==> final(self).state == ReceiverState::Ready(value),
            r is Err ==> *final(self) == *old(self),
    {
        match &self.state {
            ReceiverState::Pending => {
                self.state = ReceiverState::Ready(value);
                Ok(())
            },
            _ => Err(()),
        }
    }

    /// Producer side: the producer goes away.
    ///
    /// A drop before any production marks the slot `ProducerDropped`; after
    /// a production it changes nothing.
    pub fn drop_producer(&mut self)
        ensures
            old(self).state is Pending ==> final(self).state is ProducerDropped,
            !(old(self).state is Pending) ==> *final(self) == *old(self),
    {
        match &self.state {
            ReceiverState::Pending => {
                self.state = ReceiverState::ProducerDropped;
            },
            _ => {},
        }
    }

    /// Consumer side: a non-blocking poll.
    ///
    /// Pending yields `Ok(None)`; the one produced response is yielded
    /// exactly once; a produced handler error, a dropped producer and an
    /// already-retrieved value are reported as distinct errors.
    pub fn get(&mut self) -> (r: Result<Option<IncomingResponse>, ChannelError>)
        ensures
            r == poll_result(old(self).state),
            final(self).state == poll_next(old(self).state),
    {
        let mut taken = ReceiverState::Consumed;
        core::mem::swap(&mut self.state, &mut taken);
        match taken {
            ReceiverState::Pending => {
                self.state = ReceiverState::Pending;
                Ok(None)
            },
            ReceiverState::Ready(Ok(resp)) => Ok(Some(resp)),
            ReceiverState::Ready(Err(msg)) => Err(ChannelError::Handler(msg)),
            ReceiverState::ProducerDropped => {
                self.state = ReceiverState::ProducerDropped;
                Err(ChannelError::ProducerDropped)
            },
            ReceiverState::Consumed => Err(ChannelError::AlreadyRetrieved),
        }
    }
}

/// Law: the receiver is a one-shot state machine.  A poll before any
/// production reports pending and changes nothing; after the one
/// production the value is retrieved on the first poll and never again;
/// a producer dropped before production is reported distinctly from
/// pending.
pub proof fn lemma_receiver_one_shot(resp: IncomingResponse)
    ensures
        poll_result(ReceiverState::Pending) == Ok::<Option<IncomingResponse>, ChannelError>(None),
        poll_next(ReceiverState::Pending) == ReceiverState::Pending,
        poll_result(ReceiverState::Ready(Ok(resp))) == Ok::<
            Option<IncomingResponse>,
            ChannelError,
        >(Some(resp)),
        poll_next(ReceiverState::Ready(Ok(resp))) == ReceiverState::Consumed,
        poll_result(ReceiverState::Consumed) == Err::<Option<IncomingResponse>, ChannelError>(
            ChannelError::AlreadyRetrieved,
        ),
        poll_result(ReceiverState::ProducerDropped) == Err::<
            Option<IncomingResponse>,
            ChannelError,
        >(ChannelError::ProducerDropped),
        poll_result(ReceiverState::ProducerDropped) != poll_result(ReceiverState::Pending),
{
}

} // verus!
