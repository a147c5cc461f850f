//! The event queue between the connection driver and the consumer.

use vstd::prelude::*;
use crate::event::{EventModel, InboundEvent};

verus! {

/// What the consumer sees on one pull from the queue.
pub enum QueuePoll {
    /// The oldest undelivered event.
    Event(InboundEvent),
    /// Nothing yet: the queue is empty but still open, so the
    /// consumer suspends and pulls again later.
    Pending,
    /// The queue is empty and closed: no event will ever follow.
    EndOfStream,
}

/// The single-producer / single-consumer queue that carries inbound
/// events from the connection driver to the consumer.
///
/// The policy is unbounded: a push always succeeds and no event is
/// ever dropped or reordered, at the cost of growth under a slow
/// consumer. A ghost record of everything already consumed makes the
/// full production history (`produced`) speakable in contracts.
pub struct EventQueue {
    items: Vec<InboundEvent>,
    closed: bool,
    taken: Ghost<Seq<EventModel>>,
}

impl EventQueue {
    /// Events produced but not yet consumed, oldest first.
    pub closed spec fn pending(self) -> Seq<EventModel> {
        self.items@.map_values(|e: InboundEvent| e@)
    }

    /// Events already handed to the consumer, in delivery order.
    pub closed spec fn consumed(self) -> Seq<EventModel> {
        self.taken@
    }

    /// Every event ever enqueued, in arrival order: what was already
    /// consumed followed by the backlog.
    pub closed spec fn produced(self) -> Seq<EventModel> {
        self.consumed() + self.pending()
    }

    /// Whether the driver has closed the queue.
    pub closed spec fn is_closed(self) -> bool {
        self.closed
    }

    /// A fresh queue: open, empty, with no history.
    pub fn new() -> (q: EventQueue)
        ensures
            !q.is_closed(),
            q.consumed() == Seq::<EventModel>::empty(),
            q.pending() == Seq::<EventModel>::empty(),
            q.produced() == Seq::<EventModel>::empty(),
    {
        let q = EventQueue { items: Vec::new(), closed: false, taken: Ghost(Seq::empty()) };
        proof {
            assert(q.pending() =~= Seq::<EventModel>::empty());
            assert(q.produced() =~= Seq::<EventModel>::empty());
        }
        q
    }

    /// Driver side: enqueue one received event. Under the unbounded
    /// policy this always succeeds; the event goes to the back, so
    /// arrival order is kept and nothing already queued is touched.
    pub fn push(&mut self, e: InboundEvent)
        requires
            !old(self).is_closed(),
        ensures
            !final(self).is_closed(),
            final(self).consumed() == old(self).consumed(),
            final(self).produced() == old(self).produced().push(e@),
    {
        let ghost prev = self.items@;
        self.items.push(e);
        proof {
            assert(self.pending() =~= prev.map_values(|x: InboundEvent| x@).push(e@));
            assert(self.produced() =~= old(self).produced().push(e@));
        }
    }

    /// Driver side: close the queue. The backlog stays; once it is
    /// drained the consumer sees end of stream.
    pub fn close(&mut self)
        ensures
            final(self).is_closed(),
            final(self).consumed() == old(self).consumed(),
            final(self).produced() == old(self).produced(),
    {
        self.closed = true;
    }

    /// Consumer side: pull the next event.
    ///
    /// Returns the oldest undelivered event when one is pending;
    /// `Pending` when the queue is open and empty, so the consumer
    /// suspends; `EndOfStream` exactly when the queue is closed and
    /// drained — and then changes nothing, so every later pull says
    /// end of stream again.
    pub fn next(&mut self) -> (r: QueuePoll)
        ensures
            final(self).produced() == old(self).produced(),
            final(self).is_closed() == old(self).is_closed(),
            old(self).pending().len() > 0 ==> (r matches QueuePoll::Event(e)
                && e@ == old(self).pending()[0]
                && final(self).consumed() == old(self).consumed().push(e@)),
            old(self).pending().len() == 0 && !old(self).is_closed() ==> (r is Pending
                && *final(self) == *old(self)),
            old(self).pending().len() == 0 && old(self).is_closed() ==> (r is EndOfStream
                && *final(self) == *old(self)),
    {
        if self.items.len() > 0 {
            let ghost prev = self.items@;
            let e = self.items.remove(0);
            self.taken = Ghost(self.taken@.push(e@));
            proof {
                assert(self.pending() =~= prev.map_values(|x: InboundEvent| x@).subrange(
                    1,
                    prev.len() as int,
                ));
                assert(self.produced() =~= old(self).produced());
            }
            QueuePoll::Event(e)
        } else if self.closed {
            QueuePoll::EndOfStream
        } else {
            QueuePoll::Pending
        }
    }
}

/// Lossless, ordered delivery: what the consumer has seen is exactly
/// the oldest produced events in production order, and together with
/// the backlog it accounts for every event ever produced — none is
/// dropped, duplicated, or reordered.
pub proof fn lemma_queue_lossless(q: EventQueue)
    ensures
        q.consumed() == q.produced().take(q.consumed().len() as int),
        q.pending() == q.produced().skip(q.consumed().len() as int),
        q.consumed().len() + q.pending().len() == q.produced().len(),
{
    assert(q.consumed() =~= q.produced().take(q.consumed().len() as int));
    assert(q.pending() =~= q.produced().skip(q.consumed().len() as int));
}

} // verus!
