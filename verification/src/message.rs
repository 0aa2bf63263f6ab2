//! Messages between the rendering side and the control side.

use vstd::prelude::*;

verus! {

/// Whether `message` is what converting `event` to the transport's
/// representation may give.
pub open spec fn carries<E: Into<T>, T>(event: E, message: T) -> bool {
    call_ensures(E::into, (event,), message)
}

/// The send handle of the rendering side. Sending never waits: an event is
/// queued, and the host posts what is queued to the control side in the order
/// in which it was sent.
pub struct Emitter<E> {
    pending: Vec<E>,
}

impl<E> View for Emitter<E> {
    type V = Seq<E>;

    /// The events that were sent and not yet handed to the host, oldest first.
    closed spec fn view(&self) -> Seq<E> {
        self.pending@
    }
}

impl<E> Emitter<E> {
    /// Construct a new emitter, with nothing queued.
    pub fn new() -> (emitter: Emitter<E>)
        ensures
            emitter@ == Seq::<E>::empty(),
    {
        Emitter { pending: Vec::new() }
    }

    /// Sends a message to the control side.
    pub fn send(&mut self, event: E)
        ensures
            final(self)@ == old(self)@.push(event),
    {
        self.pending.push(event);
    }

    /// The number of events that wait for the host.
    pub fn len(&self) -> (len: usize)
        ensures
            len == self@.len(),
    {
        self.pending.len()
    }

    /// Hands the queued events to the host, oldest first, and leaves the
    /// queue empty.
    pub fn drain(&mut self) -> (events: Vec<E>)
        ensures
            events@ == old(self)@,
            final(self)@ == Seq::<E>::empty(),
    {
        let mut events: Vec<E> = Vec::new();
        events.append(&mut self.pending);
        assert(events@ =~= old(self)@);
        events
    }

    /// Hands the queued events to the host in the transport's
    /// representation, oldest first, and leaves the queue empty.
    pub fn drain_as<T>(&mut self) -> (messages: Vec<T>) where E: Into<T>
        ensures
            final(self)@ == Seq::<E>::empty(),
            messages.len() == old(self)@.len(),
            forall|i: int|
                0 <= i < messages.len() ==> carries(old(self)@[i], #[trigger] messages[i]),
    {
        let events = self.drain();
        let ghost sent = events@;
        let mut messages: Vec<T> = Vec::new();
        for event in it: events
            invariant
                it.seq() == sent,
                messages.len() == it.index(),
                forall|i: int|
                    0 <= i < messages.len() ==> carries(sent[i], #[trigger] messages[i]),
        {
            let message: T = event.into();
            messages.push(message);
        }
        messages
    }
}

/// The messages that the bridge keeps for itself. A payload that decodes as
/// one of them is never shown to the module.
#[derive(Clone, Copy, Debug, PartialEq, Eq, Structural)]
pub enum InternalMessage {
    /// Stop rendering: the next quantum is the last.
    Destroy,
}

} // verus!
