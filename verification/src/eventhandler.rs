//! Event handlers: the subscribers that delivered events fan out to.
//!
//! A handler has an identity — its type — under which it is registered at
//! most once, and a `handle_event` method whose failure keeps the event
//! pending for a later delivery attempt.  Handlers are implemented
//! directly on a type; the dispatchers take them by value and return
//! their outcomes, so the handlers' own state stays the implementor's
//! business.

use vstd::prelude::*;
use crate::event::MyEvent;

verus! {

/// A handler's identity, used to reject duplicate registration.
#[derive(Debug)]
pub struct EventHandlerType(pub String);

/// An error raised while handling one event.
#[derive(Debug, PartialEq, Eq)]
pub enum EventHandlerError {
    MissingEvent,
    HandlingError(String),
}

/// A subscriber.  Implementors supply the identity and the reaction; the
/// dispatchers decide which events reach it.  `type_view` is the model
/// of the identity, so that registration can promise exactly when a
/// duplicate is rejected.
pub trait EventHandler {
    /// The model of this handler's identity.
    spec fn type_view(&self) -> Seq<char>;

    fn handler_type(&self) -> (t: EventHandlerType)
        ensures
            t.0@ == self.type_view(),
    ;

    fn handle_event(&mut self, event: &MyEvent) -> Result<(), EventHandlerError>;
}

/// A handler that records what it receives, failing a configured number
/// of times first; handlers must be idempotent under redelivery, and this
/// one makes redelivery observable to its owner.
#[derive(Debug)]
pub struct RecordingEventHandler {
    pub name: String,
    pub received: Vec<String>,
    pub failures_left: u64,
}

impl RecordingEventHandler {
    /// A handler that accepts every delivery.
    pub fn new(name: String) -> (h: RecordingEventHandler)
        ensures
            h.name == name,
            h.received@ == Seq::<String>::empty(),
            h.failures_left == 0,
    {
        RecordingEventHandler { name, received: Vec::new(), failures_left: 0 }
    }

    /// A handler that fails its first `failures` deliveries and accepts
    /// the ones after.
    pub fn failing(name: String, failures: u64) -> (h: RecordingEventHandler)
        ensures
            h.name == name,
            h.received@ == Seq::<String>::empty(),
            h.failures_left == failures,
    {
        RecordingEventHandler { name, received: Vec::new(), failures_left: failures }
    }
}

impl EventHandler for RecordingEventHandler {
    open spec fn type_view(&self) -> Seq<char> {
        self.name@
    }

    fn handler_type(&self) -> (t: EventHandlerType)
        ensures
            t.0@ == self.name@,
    {
        EventHandlerType(self.name.clone())
    }

    fn handle_event(&mut self, event: &MyEvent) -> (r: Result<(), EventHandlerError>)
        ensures
            old(self).failures_left > 0 ==> r is Err && final(self).failures_left == old(
                self,
            ).failures_left - 1 && final(self).received == old(self).received,
            old(self).failures_left == 0 ==> r is Ok && final(self).received@.len() == old(
                self,
            ).received@.len() + 1 && final(self).received@.last()@ == event@.event_type,
            final(self).name == old(self).name,
    {
        if self.failures_left > 0 {
            self.failures_left = self.failures_left - 1;
            Err(EventHandlerError::HandlingError(String::from_str("delivery refused")))
        } else {
            self.received.push(event.event_type());
            Ok(())
        }
    }
}

} // verus!
