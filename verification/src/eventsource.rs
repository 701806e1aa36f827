//! Event sources: holders of events produced but not yet committed.

use vstd::prelude::*;
use crate::event::MyEvent;
use crate::eventstore::events_view;

verus! {

/// A holder of uncommitted events, cleared once they are saved.
pub trait EventSource {
    fn uncommitted_events(&self) -> Vec<MyEvent>;

    fn clear_uncommitted_events(&mut self);
}

/// A plain event source backed by a vector.
#[derive(Debug)]
pub struct BasicEventSource {
    pub events: Vec<MyEvent>,
}

impl BasicEventSource {
    /// A source with no uncommitted events.
    pub fn new() -> (s: BasicEventSource)
        ensures
            s.events@.len() == 0,
    {
        BasicEventSource { events: Vec::new() }
    }

    /// Queues one produced event.
    pub fn record(&mut self, event: MyEvent)
        ensures
            final(self).events@ == old(self).events@.push(event),
    {
        self.events.push(event);
    }
}

impl EventSource for BasicEventSource {
    fn uncommitted_events(&self) -> (r: Vec<MyEvent>)
        ensures
            events_view(r@) == events_view(self.events@),
    {
        let r = crate::event::duplicate_events(&self.events);
        proof {
            assert(events_view(r@) =~= events_view(self.events@));
        }
        r
    }

    fn clear_uncommitted_events(&mut self)
        ensures
            final(self).events@.len() == 0,
    {
        self.events.clear();
    }
}

} // verus!
