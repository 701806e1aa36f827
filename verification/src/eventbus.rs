//! The event bus: in-process fan-out of delivered events to registered
//! (matcher, handler) pairs.
//!
//! Registration happens at wiring time and rejects a second handler with
//! the same identity; dispatch invokes exactly the handlers whose matcher
//! accepts the event.

use vstd::prelude::*;
use crate::event::MyEvent;
use crate::eventhandler::{EventHandler, EventHandlerError, EventHandlerType};

verus! {

/// A bus failure: a missing argument at registration, a duplicate
/// handler, or a handler failure surfaced from dispatch.
#[derive(Debug, PartialEq, Eq)]
pub enum EventBusError {
    MissingMatcher,
    MissingHandler,
    HandlerAlreadyAdded,
    HandlingError(String),
}

/// A predicate over an event's type tags, used by the dispatchers.
#[derive(Debug)]
pub enum EventMatcher {
    /// Matches events whose type tag is among the listed ones.
    Events(Vec<String>),
    /// Matches events whose aggregate type is among the listed ones.
    Aggregates(Vec<String>),
}

/// What a dispatch matcher means: whether it accepts an event with the
/// given type tag and aggregate type.
pub open spec fn bus_matches(m: EventMatcher, et: Seq<char>, at: Seq<char>) -> bool {
    match m {
        EventMatcher::Events(ts) => exists|i: int|
            0 <= i < ts@.len() && (#[trigger] ts@[i])@ == et,
        EventMatcher::Aggregates(ts) => exists|i: int|
            0 <= i < ts@.len() && (#[trigger] ts@[i])@ == at,
    }
}

impl EventMatcher {
    /// Decides whether this matcher accepts the event.
    pub fn matches(&self, event: &MyEvent) -> (r: bool)
        ensures
            r == bus_matches(*self, event@.event_type, event@.aggregate_type),
    {
        match self {
            EventMatcher::Events(ts) => {
                proof {
                    assert(self->Events_0 == *ts);
                }
                contains_string(ts, &event.event_type)
            },
            EventMatcher::Aggregates(ts) => {
                proof {
                    assert(self->Aggregates_0 == *ts);
                }
                contains_string(ts, &event.aggregate_type)
            },
        }
    }
}

/// True if `needle` is among the strings of `haystack`.
fn contains_string(haystack: &Vec<String>, needle: &String) -> (r: bool)
    ensures
        r == (exists|i: int| 0 <= i < haystack@.len() && (#[trigger] haystack@[i])@ == needle@),
{
    let n = haystack.len();
    let mut i: usize = 0;
    while i < n
        invariant
            n == haystack@.len(),
            i <= n,
            forall|j: int| 0 <= j < i ==> (#[trigger] haystack@[j])@ != needle@,
        decreases n - i,
    {
        if crate::event::str_eq(haystack[i].as_str(), needle.as_str()) {
            return true;
        }
        i = i + 1;
    }
    false
}

/// How many entries of `s` are false: the failures a report records.
pub open spec fn count_false(s: Seq<bool>) -> int
    decreases s.len(),
{
    if s.len() == 0 {
        0
    } else {
        count_false(s.drop_last()) + if s.last() {
            0int
        } else {
            1int
        }
    }
}

/// A report holds between zero failures and as many as it has entries.
pub proof fn lemma_count_false_bounds(s: Seq<bool>)
    ensures
        0 <= count_false(s) <= s.len(),
    decreases s.len(),
{
    if s.len() > 0 {
        lemma_count_false_bounds(s.drop_last());
    }
}

/// True if some registered entry carries the handler identity `t`.
pub open spec fn entries_have_type<H>(
    entries: Seq<(EventMatcher, EventHandlerType, H)>,
    t: Seq<char>,
) -> bool {
    exists|i: int| 0 <= i < entries.len() && (#[trigger] entries[i]).1.0@ == t
}

/// True if the table holds an entry under the handler identity `t`.
pub fn contains_type<H>(entries: &Vec<(EventMatcher, EventHandlerType, H)>,
    t: &EventHandlerType) -> (r: bool)
    ensures
        r == entries_have_type(entries@, t.0@),
{
    let n = entries.len();
    let mut i: usize = 0;
    while i < n
        invariant
            n == entries@.len(),
            i <= n,
            forall|j: int| 0 <= j < i ==> (#[trigger] entries@[j]).1.0@ != t.0@,
        decreases n - i,
    {
        if crate::event::str_eq(entries[i].1.0.as_str(), t.0.as_str()) {
            return true;
        }
        i = i + 1;
    }
    false
}

/// The in-process dispatcher: a registration table read by every
/// dispatch, written only while wiring the process up.
pub struct EventBus<H> {
    pub entries: Vec<(EventMatcher, EventHandlerType, H)>,
    pub errors: Vec<EventBusError>,
    pub closed: bool,
}

impl<H: EventHandler> EventBus<H> {
    /// Well-formedness: registered handler identities are distinct.
    pub open spec fn wf(&self) -> bool {
        forall|i: int, j: int|
            0 <= i < j < self.entries@.len() ==> (#[trigger] self.entries@[i]).1.0@ != (
            #[trigger] self.entries@[j]).1.0@
    }

    /// An empty bus.
    pub fn new() -> (b: EventBus<H>)
        ensures
            b.entries@ == Seq::<(EventMatcher, EventHandlerType, H)>::empty(),
            b.errors@ == Seq::<EventBusError>::empty(),
            !b.closed,
            b.wf(),
    {
        EventBus { entries: Vec::new(), errors: Vec::new(), closed: false }
    }

    /// Registers a (matcher, handler) pair.  Fails exactly when an
    /// argument is absent or a handler of the same identity is already
    /// registered; distinct identities stay distinct.
    pub fn add_handler(&mut self, matcher: Option<EventMatcher>, handler: Option<H>) -> (r: Result<
        (),
        EventBusError,
    >)
        ensures
            matcher is None ==> r == Err::<(), EventBusError>(EventBusError::MissingMatcher),
            matcher is Some && handler is None ==> r == Err::<(), EventBusError>(
                EventBusError::MissingHandler,
            ),
            matcher is Some && handler is Some ==> (r is Ok <==> !entries_have_type(
                old(self).entries@,
                handler->0.type_view(),
            )),
            matcher is Some && handler is Some && r is Err ==> r == Err::<(), EventBusError>(
                EventBusError::HandlerAlreadyAdded,
            ),
            r is Err ==> *final(self) == *old(self),
            r is Ok ==> {
                &&& final(self).entries@.len() == old(self).entries@.len() + 1
                &&& forall|j: int|
                    0 <= j < old(self).entries@.len() ==> (#[trigger] final(self).entries@[j])
                        == old(self).entries@[j]
                &&& final(self).entries@.last().0 == matcher->0
                &&& final(self).entries@.last().1.0@ == handler->0.type_view()
                &&& final(self).entries@.last().2 == handler->0
            },
            final(self).errors == old(self).errors,
            final(self).closed == old(self).closed,
            old(self).wf() ==> final(self).wf(),
    {
        if matcher.is_none() {
            return Err(EventBusError::MissingMatcher);
        }
        if handler.is_none() {
            return Err(EventBusError::MissingHandler);
        }
        let m = matcher.unwrap();
        let h = handler.unwrap();
        let t = h.handler_type();
        if contains_type(&self.entries, &t) {
            return Err(EventBusError::HandlerAlreadyAdded);
        }
        let ghost gt = t;
        self.entries.push((m, t, h));
        proof {
            assert(!entries_have_type(old(self).entries@, gt.0@));
            if old(self).wf() {
                assert forall|x: int, y: int|
                    0 <= x < y < self.entries@.len() implies (#[trigger] self.entries@[x]).1.0@
                    != (#[trigger] self.entries@[y]).1.0@ by {
                    if y < self.entries@.len() - 1 {
                        assert(self.entries@[x] == old(self).entries@[x]);
                        assert(self.entries@[y] == old(self).entries@[y]);
                    } else {
                        assert(self.entries@[x] == old(self).entries@[x]);
                        assert(self.entries@[y].1.0@ == gt.0@);
                    }
                }
            }
        }
        Ok(())
    }

    /// Delivers one event: every registered pair whose matcher accepts it
    /// has its handler invoked; a handler failure appends an error and
    /// does not stop the fan-out.  Returns, per entry, whether the
    /// entry's matcher accepted the event, and whether its delivery
    /// succeeded — an entry that did not match reports success without
    /// being consulted.
    pub fn dispatch(&mut self, event: &MyEvent) -> (r: (Vec<bool>, Vec<bool>))
        ensures
            final(self).closed == old(self).closed,
            old(self).closed ==> *final(self) == *old(self) && r.0@.len() == 0 && r.1@.len() == 0,
            !old(self).closed ==> {
                &&& r.0@.len() == old(self).entries@.len()
                &&& forall|i: int|
                    0 <= i < r.0@.len() ==> r.0@[i] == bus_matches(
                        (#[trigger] old(self).entries@[i]).0,
                        event@.event_type,
                        event@.aggregate_type,
                    )
                &&& r.1@.len() == old(self).entries@.len()
                &&& forall|i: int|
                    0 <= i < r.1@.len() && !bus_matches(
                        (#[trigger] old(self).entries@[i]).0,
                        event@.event_type,
                        event@.aggregate_type,
                    ) ==> r.1@[i]
                &&& final(self).entries@.len() == old(self).entries@.len()
                &&& forall|i: int|
                    0 <= i < final(self).entries@.len() ==> (#[trigger] final(self).entries@[i]).0
                        == old(self).entries@[i].0 && final(self).entries@[i].1 == old(
                        self,
                    ).entries@[i].1
                &&& final(self).errors@.len() == old(self).errors@.len() + count_false(r.1@)
                &&& forall|i: int|
                    0 <= i < old(self).errors@.len() ==> (#[trigger] final(self).errors@[i])
                        == old(self).errors@[i]
            },
    {
        let mut matched: Vec<bool> = Vec::new();
        let mut report: Vec<bool> = Vec::new();
        if self.closed {
            return (matched, report);
        }
        let ghost initial = self.entries@;
        let n = self.entries.len();
        proof {
            assert(count_false(Seq::<bool>::empty()) == 0);
        }
        let mut j: usize = 0;
        while j < n
            invariant
                n == initial.len(),
                j <= n,
                self.entries@.len() == n,
                matched@.len() == j,
                report@.len() == j,
                self.closed == old(self).closed,
                !self.closed,
                initial == old(self).entries@,
                forall|x: int|
                    0 <= x < n ==> (#[trigger] self.entries@[x]).0 == initial[x].0
                        && self.entries@[x].1 == initial[x].1,
                forall|x: int|
                    0 <= x < j ==> matched@[x] == bus_matches(
                        (#[trigger] initial[x]).0,
                        event@.event_type,
                        event@.aggregate_type,
                    ),
                forall|x: int|
                    0 <= x < j && !bus_matches(
                        (#[trigger] initial[x]).0,
                        event@.event_type,
                        event@.aggregate_type,
                    ) ==> report@[x],
                self.errors@.len() == old(self).errors@.len() + count_false(report@),
                forall|x: int|
                    0 <= x < old(self).errors@.len() ==> (#[trigger] self.errors@[x]) == old(
                        self,
                    ).errors@[x],
            decreases n - j,
        {
            let ghost before = self.entries@;
            let ghost report_pre = report@;
            let mut entry = self.entries.remove(j);
            let hit = entry.0.matches(event);
            let mut ok = true;
            if hit {
                match entry.2.handle_event(event) {
                    Ok(()) => {},
                    Err(EventHandlerError::MissingEvent) => {
                        ok = false;
                        self.errors.push(EventBusError::HandlingError(String::from_str(
                            "missing event",
                        )));
                    },
                    Err(EventHandlerError::HandlingError(msg)) => {
                        ok = false;
                        self.errors.push(EventBusError::HandlingError(msg));
                    },
                }
            }
            let ghost gentry = entry;
            self.entries.insert(j, entry);
            matched.push(hit);
            report.push(ok);
            proof {
                assert(self.entries@ =~= before.update(j as int, gentry));
                assert(gentry.0 == before[j as int].0);
                assert(gentry.1 == before[j as int].1);
                assert(report@.drop_last() =~= report_pre);
                assert(report@.last() == ok);
                lemma_count_false_bounds(report@);
                lemma_count_false_bounds(report_pre);
            }
            j = j + 1;
        }
        (matched, report)
    }

    /// The delivery failures recorded so far, oldest first.  The log
    /// grows without bound; readers are expected to drain it.
    pub fn errors(&self) -> (e: &Vec<EventBusError>)
        ensures
            e == &self.errors,
    {
        &self.errors
    }

    /// Stops accepting events: later dispatches are no-ops.
    pub fn close(&mut self) -> (r: Result<(), EventBusError>)
        ensures
            r is Ok,
            final(self).closed,
            final(self).entries == old(self).entries,
            final(self).errors == old(self).errors,
    {
        self.closed = true;
        Ok(())
    }
}

} // verus!
