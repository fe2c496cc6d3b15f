//! A buffer of the most recent agent events, for views that attach late.
use vstd::prelude::*;

verus! {

/// Keeps the last `capacity` events, oldest first.
#[derive(Debug, Clone)]
pub struct EventBuffer<T> {
    events: Vec<T>,
    capacity: usize,
}

impl<T> EventBuffer<T> {
    /// The events held, oldest first.
    pub closed spec fn contents(&self) -> Seq<T> {
        self.events@
    }

    /// How many events the buffer keeps.
    pub closed spec fn cap(&self) -> usize {
        self.capacity
    }

    /// The buffer never holds more than its capacity.
    pub closed spec fn well_formed(&self) -> bool {
        self.events@.len() <= self.capacity
    }

    /// An empty buffer that keeps the last `capacity` events.
    pub fn new(capacity: usize) -> (r: Self)
        ensures
            r.contents().len() == 0,
            r.cap() == capacity,
            r.well_formed(),
    {
        EventBuffer { events: Vec::new(), capacity }
    }

    /// Add an event, first dropping the oldest when the buffer is full.
    /// A buffer of capacity zero cannot take events.
    pub fn push(&mut self, event: T)
        requires
            old(self).cap() > 0,
            old(self).well_formed(),
        ensures
            final(self).cap() == old(self).cap(),
            final(self).well_formed(),
            final(self).contents() == if old(self).contents().len() >= old(self).cap() {
                old(self).contents().drop_first().push(event)
            } else {
                old(self).contents().push(event)
            },
    {
        if self.events.len() >= self.capacity {
            self.events.remove(0);
        }
        self.events.push(event);
    }

    /// The number of events held.
    pub fn len(&self) -> (r: usize)
        ensures
            r == self.contents().len(),
    {
        self.events.len()
    }

    /// Drop every event.
    pub fn clear(&mut self)
        ensures
            final(self).contents().len() == 0,
            final(self).cap() == old(self).cap(),
            final(self).well_formed(),
    {
        self.events.clear();
    }
}

impl<T: Clone> EventBuffer<T> {
    /// A copy of the events held, oldest first.
    pub fn snapshot(&self) -> (r: Vec<T>)
        ensures
            r@.len() == self.contents().len(),
            forall|i: int| 0 <= i < r@.len() ==> cloned::<T>(self.contents()[i], #[trigger] r@[i]),
    {
        self.events.clone()
    }
}

/// The events a buffer of capacity `cap` holds after the given events
/// were pushed into an empty one: the last `cap` of them.
pub open spec fn last_n<T>(pushed: Seq<T>, cap: nat) -> Seq<T> {
    if pushed.len() <= cap {
        pushed
    } else {
        pushed.skip(pushed.len() - cap)
    }
}

/// A buffer keeps exactly the most recent events: if it held the last
/// `cap` of the events pushed so far, it holds the last `cap` of them
/// after one more.
pub proof fn lemma_keeps_most_recent<T>(pushed: Seq<T>, held: Seq<T>, cap: nat, event: T)
    requires
        cap > 0,
        held == last_n(pushed, cap),
    ensures
        (if held.len() >= cap {
            held.drop_first().push(event)
        } else {
            held.push(event)
        }) == last_n(pushed.push(event), cap),
{
    let next = pushed.push(event);
    if pushed.len() < cap {
        assert(held.len() < cap);
    } else {
        assert(held.len() == cap);
        assert(held.drop_first().push(event) =~= next.skip(next.len() - cap));
    }
}

} // verus!
