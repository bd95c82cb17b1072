//! Event dispatch: the producer-side trait and the single-threaded queue.

use vstd::prelude::*;

use crate::event::AppEvent;

verus! {

/// The producer side of an event channel.  Any component holding a handle
/// may enqueue an event; the frame loop is the single consumer.  Backends
/// implement this for their own channel handles.
pub trait Dispatcher<T> {
    /// Enqueues `event` without blocking the producer.
    fn dispatch(&self, event: T);
}

/// A first-in first-out queue of application events, used as the dispatcher
/// of the single-threaded callback backend, where producer and consumer run
/// on the same call stack.
pub struct EventQueue {
    items: Vec<AppEvent>,
}

impl EventQueue {
    /// The queued events, oldest first.
    pub closed spec fn view(self) -> Seq<AppEvent> {
        self.items@
    }

    /// Creates an empty queue.
    pub fn new() -> (q: EventQueue)
        ensures
            q@ == Seq::<AppEvent>::empty(),
    {
        EventQueue { items: Vec::new() }
    }

    /// Enqueues one event at the back.
    pub fn push(&mut self, event: AppEvent)
        ensures
            final(self)@ == old(self)@.push(event),
    {
        self.items.push(event);
    }

    /// Dequeues the oldest event, or returns `None` on an empty queue.
    pub fn try_next(&mut self) -> (r: Option<AppEvent>)
        ensures
            old(self)@.len() == 0 ==> r is None && final(self)@ == old(self)@,
            old(self)@.len() > 0 ==> r == Some(old(self)@[0]) && final(self)@ == old(
                self,
            )@.skip(1),
    {
        if self.items.len() == 0 {
            None
        } else {
            let e = self.items.remove(0);
            proof {
                assert(self.items@ =~= old(self)@.skip(1));
            }
            Some(e)
        }
    }

    /// The number of queued events.
    pub fn len(&self) -> (n: usize)
        ensures
            n == self@.len(),
    {
        self.items.len()
    }
}

/// The timeout the polling source hands to its next wait for input: what
/// remains of the tick interval, or the whole interval once it has already
/// elapsed.  This keeps a tick due at least once per interval even under
/// continuous input, without starving input events.
pub fn poll_timeout(tick_rate_ms: u64, elapsed_ms: u64) -> (t: u64)
    ensures
        t == (if elapsed_ms <= tick_rate_ms {
            tick_rate_ms - elapsed_ms
        } else {
            tick_rate_ms as int
        }),
{
    if elapsed_ms <= tick_rate_ms {
        tick_rate_ms - elapsed_ms
    } else {
        tick_rate_ms
    }
}

/// Whether the tick interval has elapsed since the last tick, so that the
/// polling source owes the consumer a tick event.
pub fn tick_due(tick_rate_ms: u64, elapsed_ms: u64) -> (r: bool)
    ensures
        r == (elapsed_ms >= tick_rate_ms),
{
    elapsed_ms >= tick_rate_ms
}

} // verus!
