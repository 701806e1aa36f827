//! The outbox: bridges "events durably committed" and "events delivered".
//!
//! Committed events are first recorded as pending; a delivery pass then
//! evaluates every registered matcher against every pending event and
//! invokes the matching handlers.  An event leaves the pending set only
//! when all its matching handlers succeed in one pass — otherwise it
//! stays pending and is retried on a later pass, so delivery is
//! at-least-once and handlers must be idempotent.  Failures are pushed on
//! an error log that grows without bound; readers are expected to drain
//! it.

use vstd::prelude::*;
use crate::event::MyEvent;
use crate::eventbus::{
    bus_matches, contains_type, count_false, entries_have_type, lemma_count_false_bounds,
    EventMatcher,
};
use crate::eventhandler::{EventHandler, EventHandlerError, EventHandlerType};

verus! {

/// A delivery failure: which error a handler raised, on which event.
#[derive(Debug)]
pub struct OutboxError {
    pub err: String,
    pub event: MyEvent,
}

impl OutboxError {
    /// Renders the failure as text, naming the event's type.
    pub fn message(&self) -> (s: String)
        ensures
            s@ == "outbox error: "@ + self.err@ + " ["@ + self.event@.event_type + "]"@,
    {
        let mut s = String::from_str("outbox error: ");
        s.append(self.err.as_str());
        s.append(" [");
        s.append(self.event.event_type.as_str());
        s.append("]");
        s
    }
}

/// The events of `pending` whose pass outcome was a full success, in
/// order: the ones the pass marks delivered.
pub open spec fn delivered_part(pending: Seq<MyEvent>, outcomes: Seq<bool>) -> Seq<MyEvent>
    decreases pending.len(),
{
    if pending.len() == 0 {
        Seq::empty()
    } else if outcomes[pending.len() - 1] {
        delivered_part(pending.drop_last(), outcomes).push(pending.last())
    } else {
        delivered_part(pending.drop_last(), outcomes)
    }
}

/// The events of `pending` whose pass outcome was a failure, in order:
/// the ones the pass keeps pending for retry.
pub open spec fn kept_part(pending: Seq<MyEvent>, outcomes: Seq<bool>) -> Seq<MyEvent>
    decreases pending.len(),
{
    if pending.len() == 0 {
        Seq::empty()
    } else if outcomes[pending.len() - 1] {
        kept_part(pending.drop_last(), outcomes)
    } else {
        kept_part(pending.drop_last(), outcomes).push(pending.last())
    }
}

/// A delivery pass partitions the pending set: every event is either
/// marked delivered or kept for retry — none is lost, none is handed on
/// twice.
pub proof fn lemma_pass_partitions_pending(pending: Seq<MyEvent>, outcomes: Seq<bool>)
    ensures
        delivered_part(pending, outcomes).len() + kept_part(pending, outcomes).len()
            == pending.len(),
    decreases pending.len(),
{
    if pending.len() > 0 {
        lemma_pass_partitions_pending(pending.drop_last(), outcomes);
    }
}

/// How many entries of all the reports together are false.
pub open spec fn total_false(reports: Seq<Vec<bool>>) -> int
    decreases reports.len(),
{
    if reports.len() == 0 {
        0
    } else {
        total_false(reports.drop_last()) + count_false(reports.last()@)
    }
}

proof fn lemma_total_false_nonneg(reports: Seq<Vec<bool>>)
    ensures
        0 <= total_false(reports),
    decreases reports.len(),
{
    if reports.len() > 0 {
        lemma_total_false_nonneg(reports.drop_last());
        lemma_count_false_bounds(reports.last()@);
    }
}

/// A simple outbox: a registration table, the pending set, the delivered
/// log, and the error log.
pub struct SimpleOutbox<H> {
    pub entries: Vec<(EventMatcher, EventHandlerType, H)>,
    pub pending: Vec<MyEvent>,
    pub delivered: Vec<MyEvent>,
    pub errors: Vec<OutboxError>,
    pub started: bool,
    pub closed: bool,
}

impl<H: EventHandler> SimpleOutbox<H> {
    /// Well-formedness: registered handler identities are distinct.
    pub open spec fn wf(&self) -> bool {
        forall|i: int, j: int|
            0 <= i < j < self.entries@.len() ==> (#[trigger] self.entries@[i]).1.0@ != (
            #[trigger] self.entries@[j]).1.0@
    }

    /// An empty outbox, not yet started.
    pub fn new() -> (o: SimpleOutbox<H>)
        ensures
            o.entries@.len() == 0,
            o.pending@.len() == 0,
            o.delivered@.len() == 0,
            o.errors@.len() == 0,
            !o.started,
            !o.closed,
            o.wf(),
    {
        SimpleOutbox {
            entries: Vec::new(),
            pending: Vec::new(),
            delivered: Vec::new(),
            errors: Vec::new(),
            started: false,
            closed: false,
        }
    }

    /// Registers a (matcher, handler) pair; it is accepted exactly when
    /// no handler of the same identity is registered yet — a duplicate
    /// is rejected, not merged.
    pub fn add_handler(&mut self, matcher: EventMatcher, handler: H) -> (r: Result<(), String>)
        ensures
            r is Ok <==> !entries_have_type(old(self).entries@, handler.type_view()),
            r is Err ==> *final(self) == *old(self),
            r is Ok ==> {
                &&& final(self).entries@.len() == old(self).entries@.len() + 1
                &&& forall|j: int|
                    0 <= j < old(self).entries@.len() ==> (#[trigger] final(self).entries@[j])
                        == old(self).entries@[j]
                &&& final(self).entries@.last().0 == matcher
                &&& final(self).entries@.last().1.0@ == handler.type_view()
                &&& final(self).entries@.last().2 == handler
            },
            r is Ok ==> {
                &&& final(self).pending == old(self).pending
                &&& final(self).delivered == old(self).delivered
                &&& final(self).errors == old(self).errors
                &&& final(self).started == old(self).started
                &&& final(self).closed == old(self).closed
            },
            old(self).wf() ==> final(self).wf(),
    {
        let t = handler.handler_type();
        if contains_type(&self.entries, &t) {
            return Err(String::from_str("handler already added"));
        }
        let ghost gt = t;
        self.entries.push((matcher, t, handler));
        proof {
            assert(!entries_have_type(old(self).entries@, gt.0@));
            if old(self).wf() {
                assert forall|x: int, y: int|
                    0 <= x < y < self.entries@.len() implies (#[trigger] self.entries@[x]).1.0@
                    != (#[trigger] self.entries@[y]).1.0@ by {
                    if y < self.entries@.len() - 1 {
                        assert(self.entries@[x] == old(self).entries@[x]);
                        assert(self.entries@[y] == old(self).entries@[y]);
                    } else {
                        assert(self.entries@[x] == old(self).entries@[x]);
                        assert(self.entries@[y].1.0@ == gt.0@);
                    }
                }
            }
        }
        Ok(())
    }

    /// Ingests one committed event: it is recorded as pending delivery
    /// before the call returns.
    pub fn handle_event(&mut self, event: &MyEvent) -> (r: Result<(), String>)
        ensures
            old(self).closed ==> r is Err && *final(self) == *old(self),
            !old(self).closed ==> {
                &&& r is Ok
                &&& final(self).pending@.len() == old(self).pending@.len() + 1
                &&& final(self).pending@.last()@ == event@
                &&& forall|k: int|
                    0 <= k < old(self).pending@.len() ==> (#[trigger] final(self).pending@[k])
                        == old(self).pending@[k]
                &&& final(self).entries == old(self).entries
                &&& final(self).delivered == old(self).delivered
                &&& final(self).errors == old(self).errors
                &&& final(self).started == old(self).started
                &&& final(self).closed == old(self).closed
            },
    {
        if self.closed {
            return Err(String::from_str("outbox is closed"));
        }
        self.pending.push(event.duplicate());
        Ok(())
    }

    /// Runs one delivery pass.  For each pending event, every matching
    /// handler is invoked; the event is marked delivered when all of them
    /// succeed and kept pending otherwise.  Returns, per event of the old
    /// pending set, whether its delivery succeeded, together with the
    /// per-entry report the verdict is the conjunction of; an entry whose
    /// matcher does not accept an event reports success for it without
    /// being consulted.  (What a consulted handler did to its own state
    /// is the implementor's business; the contract pins the bookkeeping,
    /// not the handlers.)  Each failure appends an error naming the
    /// event.
    pub fn process_pending(&mut self) -> (r: (Vec<bool>, Vec<Vec<bool>>))
        ensures
            r.0@.len() == old(self).pending@.len(),
            r.1@.len() == old(self).pending@.len(),
            forall|i: int|
                0 <= i < r.1@.len() ==> (#[trigger] r.1@[i])@.len() == old(self).entries@.len(),
            forall|i: int|
                0 <= i < r.0@.len() ==> (#[trigger] r.0@[i]) == (forall|j: int|
                    0 <= j < r.1@[i]@.len() ==> #[trigger] r.1@[i]@[j]),
            forall|i: int, j: int|
                0 <= i < old(self).pending@.len() && 0 <= j < old(self).entries@.len()
                    && !bus_matches(
                    (#[trigger] old(self).entries@[j]).0,
                    (#[trigger] old(self).pending@[i])@.event_type,
                    old(self).pending@[i]@.aggregate_type,
                ) ==> r.1@[i]@[j],
            forall|i: int|
                0 <= i < r.0@.len() && (forall|j: int|
                    0 <= j < old(self).entries@.len() ==> !bus_matches(
                        (#[trigger] old(self).entries@[j]).0,
                        (#[trigger] old(self).pending@[i])@.event_type,
                        old(self).pending@[i]@.aggregate_type,
                    )) ==> r.0@[i],
            final(self).pending@ == kept_part(old(self).pending@, r.0@),
            final(self).delivered@ == old(self).delivered@ + delivered_part(
                old(self).pending@,
                r.0@,
            ),
            final(self).entries@.len() == old(self).entries@.len(),
            forall|i: int|
                0 <= i < final(self).entries@.len() ==> (#[trigger] final(self).entries@[i]).0
                    == old(self).entries@[i].0 && final(self).entries@[i].1 == old(
                    self,
                ).entries@[i].1,
            final(self).errors@.len() == old(self).errors@.len() + total_false(r.1@),
            forall|i: int|
                0 <= i < old(self).errors@.len() ==> (#[trigger] final(self).errors@[i]) == old(
                    self,
                ).errors@[i],
            forall|k: int|
                old(self).errors@.len() <= k < final(self).errors@.len() ==> exists|i: int|
                    0 <= i < old(self).pending@.len() && (#[trigger] final(self).errors@[k]).event@
                        == old(self).pending@[i]@,
            final(self).started == old(self).started,
            final(self).closed == old(self).closed,
    {
        let ghost initial_pending = self.pending@;
        let ghost initial_entries = self.entries@;
        let ghost initial_delivered = self.delivered@;
        let mut outcomes: Vec<bool> = Vec::new();
        let mut reports: Vec<Vec<bool>> = Vec::new();
        let mut kept: Vec<MyEvent> = Vec::new();
        let n = self.pending.len();
        proof {
            assert(self.pending@ =~= initial_pending.subrange(0, n as int));
            assert(delivered_part(initial_pending.subrange(0, 0), Seq::<bool>::empty())
                =~= Seq::<MyEvent>::empty());
            assert(kept_part(initial_pending.subrange(0, 0), Seq::<bool>::empty())
                =~= Seq::<MyEvent>::empty());
            assert(initial_delivered + Seq::<MyEvent>::empty() =~= initial_delivered);
        }
        let mut i: usize = 0;
        while i < n
            invariant
                n == initial_pending.len(),
                i <= n,
                initial_pending == old(self).pending@,
                initial_entries == old(self).entries@,
                initial_delivered == old(self).delivered@,
                self.pending@ == initial_pending.subrange(i as int, n as int),
                outcomes@.len() == i,
                reports@.len() == i,
                forall|x: int|
                    0 <= x < i ==> (#[trigger] reports@[x])@.len() == initial_entries.len(),
                forall|x: int|
                    0 <= x < i ==> (#[trigger] outcomes@[x]) == (forall|j: int|
                        0 <= j < reports@[x]@.len() ==> #[trigger] reports@[x]@[j]),
                forall|x: int, j: int|
                    0 <= x < i && 0 <= j < initial_entries.len() && !bus_matches(
                        (#[trigger] initial_entries[j]).0,
                        (#[trigger] initial_pending[x])@.event_type,
                        initial_pending[x]@.aggregate_type,
                    ) ==> reports@[x]@[j],
                self.errors@.len() == old(self).errors@.len() + total_false(reports@),
                forall|k: int|
                    old(self).errors@.len() <= k < self.errors@.len() ==> exists|x: int|
                        0 <= x < i && (#[trigger] self.errors@[k]).event@ == initial_pending[x]@,
                kept@ == kept_part(initial_pending.subrange(0, i as int), outcomes@),
                self.delivered@ == initial_delivered + delivered_part(
                    initial_pending.subrange(0, i as int),
                    outcomes@,
                ),
                forall|x: int|
                    0 <= x < i && (forall|j: int|
                        0 <= j < initial_entries.len() ==> !bus_matches(
                            (#[trigger] initial_entries[j]).0,
                            (#[trigger] initial_pending[x])@.event_type,
                            initial_pending[x]@.aggregate_type,
                        )) ==> outcomes@[x],
                self.entries@.len() == initial_entries.len(),
                forall|x: int|
                    0 <= x < self.entries@.len() ==> (#[trigger] self.entries@[x]).0
                        == initial_entries[x].0 && self.entries@[x].1 == initial_entries[x].1,
                forall|x: int|
                    0 <= x < old(self).errors@.len() ==> (#[trigger] self.errors@[x]) == old(
                        self,
                    ).errors@[x],
                self.started == old(self).started,
                self.closed == old(self).closed,
            decreases n - i,
        {
            proof {
                assert(self.pending@[0] == initial_pending[i as int]);
            }
            let event = self.pending.remove(0);
            let ghost gevent = event;
            proof {
                assert(self.pending@ =~= initial_pending.subrange(i as int + 1, n as int));
                assert(gevent == initial_pending[i as int]);
            }
            let ghost errors_pre_len = self.errors@.len();
            let (all_ok, rep) = self.deliver_to_all(&event, Ghost(initial_entries));
            let ghost grep = rep;
            let ghost out_pre = outcomes@;
            let ghost reports_pre = reports@;
            outcomes.push(all_ok);
            reports.push(rep);
            proof {
                assert(reports@.drop_last() =~= reports_pre);
                assert(reports@.last() == grep);
                assert(total_false(reports@) == total_false(reports_pre) + count_false(grep@));
                lemma_total_false_nonneg(reports_pre);
                lemma_count_false_bounds(grep@);
                assert(initial_pending.subrange(0, i as int + 1).drop_last()
                    =~= initial_pending.subrange(0, i as int));
                assert(initial_pending.subrange(0, i as int + 1).last()
                    == initial_pending[i as int]);
                lemma_parts_extend(initial_pending.subrange(0, i as int), out_pre, all_ok);
                assert forall|k: int|
                    old(self).errors@.len() <= k < self.errors@.len() implies exists|x: int|
                        0 <= x < i + 1 && (#[trigger] self.errors@[k]).event@
                            == initial_pending[x]@ by {
                    if k >= errors_pre_len {
                        assert(self.errors@[k].event@ == gevent@);
                        assert(self.errors@[k].event@ == initial_pending[i as int]@);
                    } else {
                        let x = choose|x: int|
                            0 <= x < i && (#[trigger] self.errors@[k]).event@
                                == initial_pending[x]@;
                        assert(self.errors@[k].event@ == initial_pending[x]@);
                    }
                }
                assert forall|x: int|
                    0 <= x < i + 1 && (forall|j: int|
                        0 <= j < initial_entries.len() ==> !bus_matches(
                            (#[trigger] initial_entries[j]).0,
                            (#[trigger] initial_pending[x])@.event_type,
                            initial_pending[x]@.aggregate_type,
                        )) implies outcomes@[x] by {
                    if x < i {
                        assert(outcomes@[x] == out_pre[x]);
                    } else {
                        assert(outcomes@[x] == all_ok);
                        assert(gevent@ == initial_pending[x]@);
                        assert forall|j: int| 0 <= j < grep@.len() implies #[trigger] grep@[j] by {
                            assert(!bus_matches(
                                initial_entries[j].0,
                                gevent@.event_type,
                                gevent@.aggregate_type,
                            ));
                        }
                        assert(all_ok);
                    }
                }
            }
            if all_ok {
                self.delivered.push(event);
                proof {
                    assert(self.delivered@ =~= initial_delivered + delivered_part(
                        initial_pending.subrange(0, i as int + 1),
                        outcomes@,
                    ));
                    assert(kept@ =~= kept_part(
                        initial_pending.subrange(0, i as int + 1),
                        outcomes@,
                    ));
                }
            } else {
                kept.push(event);
                proof {
                    assert(kept@ =~= kept_part(initial_pending.subrange(0, i as int + 1),
                        outcomes@));
                    assert(self.delivered@ =~= initial_delivered + delivered_part(
                        initial_pending.subrange(0, i as int + 1),
                        outcomes@,
                    ));
                }
            }
            i = i + 1;
        }
        proof {
            assert(initial_pending.subrange(0, n as int) =~= initial_pending);
            assert(initial_pending.subrange(n as int, n as int).len() == 0);
        }
        self.pending = kept;
        (outcomes, reports)
    }

    /// Invokes every handler whose matcher accepts the event; returns
    /// whether all of them succeeded, with a per-entry report.  An entry
    /// whose matcher does not accept the event reports success without
    /// being consulted, and each failure appends an error naming the
    /// event.
    fn deliver_to_all(&mut self, event: &MyEvent, Ghost(initial_entries): Ghost<
        Seq<(EventMatcher, EventHandlerType, H)>,
    >) -> (r: (bool, Vec<bool>))
        requires
            old(self).entries@.len() == initial_entries.len(),
            forall|x: int|
                0 <= x < initial_entries.len() ==> (#[trigger] old(self).entries@[x]).0
                    == initial_entries[x].0 && old(self).entries@[x].1 == initial_entries[x].1,
        ensures
            final(self).entries@.len() == initial_entries.len(),
            forall|x: int|
                0 <= x < initial_entries.len() ==> (#[trigger] final(self).entries@[x]).0
                    == initial_entries[x].0 && final(self).entries@[x].1 == initial_entries[x].1,
            r.1@.len() == initial_entries.len(),
            forall|j: int|
                0 <= j < initial_entries.len() && !bus_matches(
                    (#[trigger] initial_entries[j]).0,
                    event@.event_type,
                    event@.aggregate_type,
                ) ==> r.1@[j],
            r.0 == (forall|j: int| 0 <= j < r.1@.len() ==> #[trigger] r.1@[j]),
            final(self).pending == old(self).pending,
            final(self).delivered == old(self).delivered,
            final(self).errors@.len() == old(self).errors@.len() + count_false(r.1@),
            forall|i: int|
                0 <= i < old(self).errors@.len() ==> (#[trigger] final(self).errors@[i]) == old(
                    self,
                ).errors@[i],
            forall|k: int|
                old(self).errors@.len() <= k < final(self).errors@.len()
                    ==> (#[trigger] final(self).errors@[k]).event@ == event@,
            final(self).started == old(self).started,
            final(self).closed == old(self).closed,
    {
        let mut all_ok = true;
        let mut report: Vec<bool> = Vec::new();
        let m = self.entries.len();
        proof {
            assert(count_false(Seq::<bool>::empty()) == 0);
        }
        let mut j: usize = 0;
        while j < m
            invariant
                m == initial_entries.len(),
                j <= m,
                self.entries@.len() == m,
                forall|x: int|
                    0 <= x < m ==> (#[trigger] self.entries@[x]).0 == initial_entries[x].0
                        && self.entries@[x].1 == initial_entries[x].1,
                report@.len() == j,
                forall|x: int|
                    0 <= x < j && !bus_matches(
                        (#[trigger] initial_entries[x]).0,
                        event@.event_type,
                        event@.aggregate_type,
                    ) ==> report@[x],
                all_ok == (forall|x: int| 0 <= x < j ==> #[trigger] report@[x]),
                self.pending == old(self).pending,
                self.delivered == old(self).delivered,
                self.errors@.len() == old(self).errors@.len() + count_false(report@),
                forall|x: int|
                    0 <= x < old(self).errors@.len() ==> (#[trigger] self.errors@[x]) == old(
                        self,
                    ).errors@[x],
                forall|k: int|
                    old(self).errors@.len() <= k < self.errors@.len() ==> (
                    #[trigger] self.errors@[k]).event@ == event@,
                self.started == old(self).started,
                self.closed == old(self).closed,
            decreases m - j,
        {
            let ghost before = self.entries@;
            let ghost report_pre = report@;
            let mut entry = self.entries.remove(j);
            let hit = entry.0.matches(event);
            let mut ok = true;
            if hit {
                match entry.2.handle_event(event) {
                    Ok(()) => {},
                    Err(EventHandlerError::MissingEvent) => {
                        ok = false;
                        self.errors.push(OutboxError {
                            err: String::from_str("missing event"),
                            event: event.duplicate(),
                        });
                    },
                    Err(EventHandlerError::HandlingError(msg)) => {
                        ok = false;
                        self.errors.push(OutboxError { err: msg, event: event.duplicate() });
                    },
                }
            }
            let ghost gentry = entry;
            self.entries.insert(j, entry);
            all_ok = all_ok && ok;
            report.push(ok);
            proof {
                assert(self.entries@ =~= before.update(j as int, gentry));
                assert(gentry.0 == before[j as int].0);
                assert(gentry.1 == before[j as int].1);
                assert(report@.drop_last() =~= report_pre);
                assert(report@.last() == ok);
                lemma_count_false_bounds(report@);
                lemma_count_false_bounds(report_pre);
            }
            j = j + 1;
        }
        proof {
            lemma_count_false_bounds(report@);
        }
        (all_ok, report)
    }

    /// Starts the outbox's delivery duty once; a second start is an
    /// error, not a second worker.
    pub fn start(&mut self) -> (r: Result<(), String>)
        ensures
            old(self).started ==> r is Err && *final(self) == *old(self),
            !old(self).started ==> {
                &&& r is Ok
                &&& final(self).started
                &&& final(self).entries == old(self).entries
                &&& final(self).pending == old(self).pending
                &&& final(self).delivered == old(self).delivered
                &&& final(self).errors == old(self).errors
                &&& final(self).closed == old(self).closed
            },
    {
        if self.started {
            return Err(String::from_str("outbox already started"));
        }
        self.started = true;
        Ok(())
    }

    /// Stops the outbox: no further events are accepted; already-pending
    /// events stay recorded for a later start.
    pub fn close(&mut self) -> (r: Result<(), String>)
        ensures
            r is Ok,
            final(self).closed,
            !final(self).started,
            final(self).entries == old(self).entries,
            final(self).pending == old(self).pending,
            final(self).delivered == old(self).delivered,
            final(self).errors == old(self).errors,
    {
        self.started = false;
        self.closed = true;
        Ok(())
    }

    /// The delivery failures recorded so far, oldest first.
    pub fn errors(&self) -> (e: &Vec<OutboxError>)
        ensures
            e == &self.errors,
    {
        &self.errors
    }
}

proof fn lemma_parts_extend(p: Seq<MyEvent>, o: Seq<bool>, flag: bool)
    requires
        o.len() >= p.len(),
    ensures
        delivered_part(p, o.push(flag)) == delivered_part(p, o),
        kept_part(p, o.push(flag)) == kept_part(p, o),
    decreases p.len(),
{
    if p.len() > 0 {
        assert(o.push(flag)[p.len() - 1] == o[p.len() - 1]);
        lemma_parts_extend(p.drop_last(), o, flag);
        assert(delivered_part(p.drop_last(), o.push(flag)) == delivered_part(p.drop_last(), o));
    }
}

} // verus!
