//! Maintenance of a stored event log: the explicit, audited operations
//! that replace an event's content or rename an event type, both
//! preserving aggregate ids and versions.

use vstd::prelude::*;
use vstd::pervasive::VecAdditionalExecFns;
use crate::event::{EventView, MyEvent};

verus! {

/// The maintenance operations an event store may expose.
pub trait EventStoreMaintenance {
    fn replace(&mut self, event: MyEvent) -> Result<(), String>;

    fn rename_event(&mut self, from: &str, to: &str) -> Result<(), String>;
}

/// A maintenance view over a plain list of stored events.
#[derive(Debug)]
pub struct BasicEventStoreMaintenance {
    pub events: Vec<MyEvent>,
}

impl BasicEventStoreMaintenance {
    /// A maintenance view over an empty log.
    pub fn new() -> (m: BasicEventStoreMaintenance)
        ensures
            m.events@.len() == 0,
    {
        BasicEventStoreMaintenance { events: Vec::new() }
    }
}

impl EventStoreMaintenance for BasicEventStoreMaintenance {
    /// Replaces the stored event that carries the same aggregate id and
    /// version as `event` — the one slot an audited replace may touch —
    /// or fails if there is none.
    fn replace(&mut self, event: MyEvent) -> (r: Result<(), String>)
        ensures
            r is Ok <==> exists|i: int|
                0 <= i < old(self).events@.len() && (#[trigger] old(self).events@[i]).aggregate_id
                    == event.aggregate_id && old(self).events@[i].version == event.version,
            r is Err ==> *final(self) == *old(self),
            r is Ok ==> exists|i: int|
                {
                    &&& 0 <= i < old(self).events@.len()
                    &&& (#[trigger] old(self).events@[i]).aggregate_id == event.aggregate_id
                    &&& old(self).events@[i].version == event.version
                    &&& final(self).events@ == old(self).events@.update(i, event)
                },
    {
        let n = self.events.len();
        let mut i: usize = 0;
        while i < n
            invariant
                n == self.events@.len(),
                self.events == old(self).events,
                i <= n,
                forall|j: int|
                    0 <= j < i ==> !((#[trigger] self.events@[j]).aggregate_id
                        == event.aggregate_id && self.events@[j].version == event.version),
            decreases n - i,
        {
            if self.events[i].aggregate_id == event.aggregate_id && self.events[i].version
                == event.version {
                self.events.set(i, event);
                return Ok(());
            }
            i = i + 1;
        }
        Err(String::from_str("Event not found"))
    }

    /// Renames every stored event of type `from` to the type `to`; all
    /// other fields, ids and versions stay as they are.
    fn rename_event(&mut self, from: &str, to: &str) -> (r: Result<(), String>)
        ensures
            r is Ok,
            final(self).events@.len() == old(self).events@.len(),
            forall|i: int|
                0 <= i < old(self).events@.len() ==> if (#[trigger] old(
                    self,
                ).events@[i])@.event_type == from@ {
                    final(self).events@[i]@ == (EventView { event_type: to@, ..old(
                        self,
                    ).events@[i]@ })
                } else {
                    final(self).events@[i]@ == old(self).events@[i]@
                },
    {
        let n = self.events.len();
        let mut i: usize = 0;
        while i < n
            invariant
                n == self.events@.len(),
                self.events@.len() == old(self).events@.len(),
                i <= n,
                forall|j: int|
                    i <= j < n ==> (#[trigger] self.events@[j]) == old(self).events@[j],
                forall|j: int|
                    0 <= j < i ==> if (#[trigger] old(self).events@[j])@.event_type == from@ {
                        self.events@[j]@ == (EventView { event_type: to@, ..old(
                            self,
                        ).events@[j]@ })
                    } else {
                        self.events@[j]@ == old(self).events@[j]@
                    },
            decreases n - i,
        {
            if crate::event::str_eq(self.events[i].event_type.as_str(), from) {
                let mut renamed = self.events[i].duplicate();
                renamed.event_type = to.to_owned();
                self.events.set(i, renamed);
            }
            i = i + 1;
        }
        Ok(())
    }
}

} // verus!
