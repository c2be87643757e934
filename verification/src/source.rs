//! The receiving end of the producer-to-scheduler event channel.

use crate::event::TimedEvent;
use vstd::prelude::*;

verus! {

#[verifier::external_type_specification]
#[verifier::external_body]
#[verifier::reject_recursive_types(T)]
pub struct ExReceiver<T>(crossbeam_channel::Receiver<T>);

/// The scheduler's view of the event stream: the consuming half of the
/// single-producer/single-consumer channel, together with the record of what
/// has been taken from it so far. The producer thread owns the sending half
/// and pushes the track's events in file order.
pub struct EventSource {
    rx: crossbeam_channel::Receiver<TimedEvent>,
    history: Ghost<Seq<TimedEvent>>,
    done: Ghost<bool>,
}

impl EventSource {
    /// The events received from the channel so far, oldest first.
    pub closed spec fn received(self) -> Seq<TimedEvent> {
        self.history@
    }

    /// Whether the stream has reported its end: the producer finished the
    /// track, or failed, and no further event will ever arrive.
    pub closed spec fn ended(self) -> bool {
        self.done@
    }

    /// Wraps a receiver that has not been read from yet.
    pub fn new(rx: crossbeam_channel::Receiver<TimedEvent>) -> (s: EventSource)
        ensures
            s.received() == Seq::<TimedEvent>::empty(),
            !s.ended(),
    {
        EventSource { rx, history: Ghost(Seq::empty()), done: Ghost(false) }
    }

    /// Blocks until the next event arrives or the stream ends.
    ///
    /// Relies on crossbeam_channel::Receiver::recv: it hands out the
    /// channel's messages one per call, in the order they were sent, and
    /// reports an error exactly when the channel is empty and every sender is
    /// gone.
    #[verifier::external_body]
    pub(crate) fn recv(&mut self) -> (r: Option<TimedEvent>)
        ensures
            match r {
                Some(event) => final(self).received() == old(self).received().push(event)
                    && final(self).ended() == old(self).ended(),
                None => final(self).received() == old(self).received() && final(self).ended(),
            },
    {
        self.rx.recv().ok()
    }
}

} // verus!
