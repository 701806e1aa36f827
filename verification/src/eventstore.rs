//! The event store: an append-only, per-aggregate, version-ordered log
//! with optimistic concurrency.
//!
//! `save` is the one correctness-critical region of the whole runtime: it
//! checks the caller's expected version against the stored history and
//! appends atomically — either the whole batch becomes visible or nothing
//! does.  Versions of a stored stream are exactly `1, 2, 3, …` with no
//! gaps and no duplicates.

use vstd::prelude::*;
use crate::event::{EventView, MyEvent};
use crate::snapshot::{MemorySnapshotStore, Snapshot, SnapshotDataClone};
use crate::uuid::Uuid;

verus! {

/// The kind of an event-store failure, per the error taxonomy: a version
/// mismatch is recoverable by reload and retry, a malformed batch never is.
#[derive(Clone, Copy, Debug, PartialEq, Eq, Structural)]
pub enum EventStoreErrorKind {
    ConcurrencyConflict,
    NotFound,
    InvalidInput,
}

/// An event-store failure, carrying enough context to diagnose it.
#[derive(Debug)]
pub struct EventStoreError {
    pub kind: EventStoreErrorKind,
    pub err: Option<String>,
    pub op: Option<String>,
    pub aggregate_type: Option<String>,
    pub aggregate_id: Option<Uuid>,
    pub aggregate_version: Option<u64>,
    pub events: Vec<MyEvent>,
}

/// The decimal spelling of `v`, most significant digit first.
pub open spec fn dec_text(v: int) -> Seq<char>
    decreases v,
{
    if v < 10 {
        seq![crate::uuid::hex_char_of(v)]
    } else {
        dec_text(v / 10).push(crate::uuid::hex_char_of(v % 10))
    }
}

/// The characters the reversed digit bytes of `rev` spell, undone: the
/// last collected digit comes first.
spec fn rev_digit_chars(rev: Seq<u8>) -> Seq<char> {
    Seq::new(rev.len(), |i: int| crate::uuid::hex_char_of(rev[rev.len() - 1 - i] as int))
}

/// Renders `v` in decimal.
pub fn u64_to_text(v: u64) -> (s: String)
    ensures
        s@ == dec_text(v as int),
{
    let mut rev: Vec<u8> = Vec::new();
    rev.push((v % 10) as u8);
    let mut rest: u64 = v / 10;
    proof {
        assert(rev_digit_chars(rev@) =~= seq![crate::uuid::hex_char_of(v as int % 10)]);
        if v < 10 {
            assert(dec_text(v as int) =~= rev_digit_chars(rev@));
        }
    }
    while rest > 0
        invariant
            forall|x: int| 0 <= x < rev@.len() ==> (#[trigger] rev@[x]) < 10,
            rev@.len() >= 1,
            rest > 0 ==> dec_text(v as int) == dec_text(rest as int) + rev_digit_chars(rev@),
            rest == 0 ==> dec_text(v as int) == rev_digit_chars(rev@),
        decreases rest,
    {
        let ghost rev_pre = rev@;
        let ghost rest_pre = rest;
        rev.push((rest % 10) as u8);
        rest = rest / 10;
        proof {
            assert(rev_digit_chars(rev@) =~= seq![
                crate::uuid::hex_char_of(rest_pre as int % 10),
            ] + rev_digit_chars(rev_pre));
            if rest > 0 {
                assert(dec_text(rest_pre as int) == dec_text(rest as int).push(
                    crate::uuid::hex_char_of(rest_pre as int % 10),
                ));
                assert(dec_text(rest as int) + rev_digit_chars(rev@) =~= (dec_text(rest as int)
                    + seq![crate::uuid::hex_char_of(rest_pre as int % 10)]) + rev_digit_chars(
                    rev_pre,
                ));
                assert(dec_text(rest as int) + seq![
                    crate::uuid::hex_char_of(rest_pre as int % 10),
                ] =~= dec_text(rest_pre as int));
            } else {
                assert(dec_text(rest_pre as int) =~= seq![
                    crate::uuid::hex_char_of(rest_pre as int % 10),
                ]);
                assert(dec_text(v as int) =~= rev_digit_chars(rev@));
            }
        }
    }
    let mut s = String::new();
    let n = rev.len();
    let mut i: usize = 0;
    while i < n
        invariant
            n == rev@.len(),
            i <= n,
            forall|x: int| 0 <= x < rev@.len() ==> (#[trigger] rev@[x]) < 10,
            s@.len() == i,
            forall|j: int| 0 <= j < i ==> s@[j] == rev_digit_chars(rev@)[j],
        decreases n - i,
    {
        crate::uuid::append_hex_char(&mut s, rev[n - 1 - i]);
        i = i + 1;
    }
    proof {
        assert(s@ =~= rev_digit_chars(rev@));
    }
    s
}

/// The type tags of the events, joined by a comma and a space.
pub open spec fn event_types_text(s: Seq<MyEvent>) -> Seq<char>
    decreases s.len(),
{
    if s.len() == 0 {
        Seq::empty()
    } else if s.len() == 1 {
        s[0]@.event_type
    } else {
        event_types_text(s.drop_last()) + ", "@ + s.last()@.event_type
    }
}

/// The textual form of an event-store failure: the store, the operation,
/// the cause, the aggregate's type, id and version when one is named,
/// and the types of the events carried.
pub open spec fn store_error_text(e: EventStoreError) -> Seq<char> {
    let head = "event store: "@ + (if e.op is Some {
        e.op->0@ + ": "@
    } else {
        Seq::<char>::empty()
    }) + (if e.err is Some {
        e.err->0@
    } else {
        "unknown error"@
    });
    let with_aggregate = if e.aggregate_id is Some {
        head + ", "@ + (if e.aggregate_type is Some {
            e.aggregate_type->0@
        } else {
            "Aggregate"@
        }) + "("@ + crate::uuid::uuid_text(e.aggregate_id->0.value) + ", v"@ + dec_text(
            (if e.aggregate_version is Some {
                e.aggregate_version->0
            } else {
                0u64
            }) as int,
        ) + ")"@
    } else {
        head
    };
    if e.events@.len() > 0 {
        with_aggregate + " ["@ + event_types_text(e.events@) + "]"@
    } else {
        with_aggregate
    }
}

impl EventStoreError {
    /// Renders the failure as text: the store, the operation, the cause,
    /// then the aggregate context and the carried events' types.
    pub fn message(&self) -> (s: String)
        ensures
            s@ == store_error_text(*self),
    {
        let mut s = String::from_str("event store: ");
        match &self.op {
            Some(op) => {
                s.append(op.as_str());
                s.append(": ");
            },
            None => {},
        }
        match &self.err {
            Some(err) => {
                s.append(err.as_str());
            },
            None => {
                s.append("unknown error");
            },
        }
        match &self.aggregate_id {
            Some(id) => {
                s.append(", ");
                match &self.aggregate_type {
                    Some(t) => {
                        s.append(t.as_str());
                    },
                    None => {
                        s.append("Aggregate");
                    },
                }
                s.append("(");
                let id_text = id.to_text();
                s.append(id_text.as_str());
                s.append(", v");
                let version: u64 = match &self.aggregate_version {
                    Some(v) => *v,
                    None => 0,
                };
                let version_text = u64_to_text(version);
                s.append(version_text.as_str());
                s.append(")");
            },
            None => {},
        }
        if self.events.len() > 0 {
            s.append(" [");
            let ghost base = s@;
            let m = self.events.len();
            proof {
                assert(event_types_text(self.events@.subrange(0, 0)) =~= Seq::<char>::empty());
                assert(base + Seq::<char>::empty() =~= base);
            }
            let mut k: usize = 0;
            while k < m
                invariant
                    m == self.events@.len(),
                    k <= m,
                    s@ == base + event_types_text(self.events@.subrange(0, k as int)),
                decreases m - k,
            {
                proof {
                    assert(self.events@.subrange(0, k as int + 1).drop_last()
                        =~= self.events@.subrange(0, k as int));
                    assert(self.events@.subrange(0, k as int + 1).last()
                        == self.events@[k as int]);
                    if k == 0 {
                        assert(self.events@.subrange(0, 1)[0] == self.events@[0]);
                    }
                }
                if k > 0 {
                    s.append(", ");
                }
                s.append(self.events[k].event_type.as_str());
                proof {
                    assert(s@ =~= base + event_types_text(
                        self.events@.subrange(0, k as int + 1),
                    ));
                }
                k = k + 1;
            }
            proof {
                assert(self.events@.subrange(0, m as int) =~= self.events@);
            }
            s.append("]");
        }
        proof {
            assert(s@ =~= store_error_text(*self));
        }
        s
    }

    /// Builds a failure record from its parts.
    pub fn new(
        kind: EventStoreErrorKind,
        err: Option<String>,
        op: Option<String>,
        aggregate_type: Option<String>,
        aggregate_id: Option<Uuid>,
        aggregate_version: Option<u64>,
        events: Vec<MyEvent>,
    ) -> (e: EventStoreError)
        ensures
            e.kind == kind,
            e.err == err,
            e.op == op,
            e.aggregate_type == aggregate_type,
            e.aggregate_id == aggregate_id,
            e.aggregate_version == aggregate_version,
            e.events == events,
    {
        EventStoreError { kind, err, op, aggregate_type, aggregate_id, aggregate_version, events }
    }
}

/// The interface a durable event store must satisfy.  `MemoryEventStore`
/// is the reference implementation; its methods carry the exact contracts.
pub trait EventStore {
    fn save(&mut self, events: Vec<MyEvent>, expected_version: u64) -> Result<
        (),
        EventStoreError,
    >;

    fn load(&self, aggregate_id: Uuid) -> Result<Vec<MyEvent>, EventStoreError>;

    fn load_from(&self, aggregate_id: Uuid, version: u64) -> Result<Vec<MyEvent>, EventStoreError>;

    fn close(&mut self) -> Result<(), EventStoreError>;
}

/// The interface a snapshot store must satisfy: a keyed cache of
/// aggregate-state checkpoints, absence not being an error.
/// `MemorySnapshotStore` is the reference implementation.
pub trait SnapshotStore<D> {
    fn load_snapshot(&self, aggregate_id: Uuid) -> Result<Option<Snapshot<D>>, String>;

    fn save_snapshot(&mut self, aggregate_id: Uuid, snapshot: Snapshot<D>) -> Result<(), String>;
}

impl<D: SnapshotDataClone> SnapshotStore<D> for MemorySnapshotStore<D> {
    fn load_snapshot(&self, aggregate_id: Uuid) -> (r: Result<Option<Snapshot<D>>, String>)
        ensures
            r is Ok,
            r->Ok_0 is Some <==> self.stored(aggregate_id) is Some,
    {
        MemorySnapshotStore::load_snapshot(self, aggregate_id)
    }

    fn save_snapshot(&mut self, aggregate_id: Uuid, snapshot: Snapshot<D>) -> (r: Result<
        (),
        String,
    >)
        ensures
            r is Ok,
            final(self).stored(aggregate_id) == Some(snapshot),
    {
        MemorySnapshotStore::save_snapshot(self, aggregate_id, snapshot)
    }
}

/// True if some stream of `s` belongs to the aggregate `id`.
pub open spec fn streams_has(s: Seq<(Uuid, Vec<MyEvent>)>, id: Uuid) -> bool {
    exists|i: int| 0 <= i < s.len() && (#[trigger] s[i]).0 == id
}

/// The events stored for the aggregate `id`: the first stream keyed by
/// `id`, or the empty history if there is none.
pub open spec fn stream_events(s: Seq<(Uuid, Vec<MyEvent>)>, id: Uuid) -> Seq<MyEvent>
    decreases s.len(),
{
    if s.len() == 0 {
        Seq::empty()
    } else if s[0].0 == id {
        s[0].1@
    } else {
        stream_events(s.drop_first(), id)
    }
}

/// The version of the last stored event for `id`; 0 if the aggregate is
/// new.
pub open spec fn current_version(s: Seq<(Uuid, Vec<MyEvent>)>, id: Uuid) -> int {
    stream_events(s, id).len() as int
}

/// The models of a sequence of events.
pub open spec fn events_view(s: Seq<MyEvent>) -> Seq<EventView> {
    s.map_values(|e: MyEvent| e@)
}

/// True if `events` is a well-formed batch against `expected`: non-empty,
/// all for one aggregate, versions contiguous from `expected + 1`.
pub open spec fn batch_valid(events: Seq<MyEvent>, expected: int) -> bool {
    &&& events.len() > 0
    &&& forall|k: int|
        0 <= k < events.len() ==> (#[trigger] events[k]).aggregate_id == events[0].aggregate_id
    &&& forall|k: int| 0 <= k < events.len() ==> (#[trigger] events[k]).version == expected + k + 1
}

/// True if the store would accept the batch: it is well formed and the
/// stored history of its aggregate ends exactly at `expected`.
pub open spec fn save_accepted(
    s: Seq<(Uuid, Vec<MyEvent>)>,
    events: Seq<MyEvent>,
    expected: int,
) -> bool {
    &&& batch_valid(events, expected)
    &&& current_version(s, events[0].aggregate_id) == expected
}

/// True if every event of the stream carries the aggregate's id and the
/// versions are exactly `1, 2, 3, …` in order.
pub open spec fn stream_ok(id: Uuid, events: Seq<MyEvent>) -> bool {
    forall|k: int|
        0 <= k < events.len() ==> (#[trigger] events[k]).aggregate_id == id && events[k].version
            == k + 1
}

/// The events of a stream that carry a version at or after `version`,
/// order kept.
pub open spec fn events_from_version(events: Seq<MyEvent>, version: u64) -> Seq<MyEvent>
    decreases events.len(),
{
    if events.len() == 0 {
        Seq::empty()
    } else if events.last().version >= version {
        events_from_version(events.drop_last(), version).push(events.last())
    } else {
        events_from_version(events.drop_last(), version)
    }
}

/// An in-memory event store: one version-ordered stream per aggregate.
pub struct MemoryEventStore {
    pub streams: Vec<(Uuid, Vec<MyEvent>)>,
}

proof fn lemma_stream_events_first_match(s: Seq<(Uuid, Vec<MyEvent>)>, id: Uuid, i: int)
    requires
        0 <= i < s.len(),
        s[i].0 == id,
        forall|j: int| 0 <= j < i ==> (#[trigger] s[j]).0 != id,
    ensures
        stream_events(s, id) == s[i].1@,
    decreases s.len(),
{
    if i > 0 {
        lemma_stream_events_first_match(s.drop_first(), id, i - 1);
    }
}

proof fn lemma_stream_events_absent(s: Seq<(Uuid, Vec<MyEvent>)>, id: Uuid)
    requires
        forall|j: int| 0 <= j < s.len() ==> (#[trigger] s[j]).0 != id,
    ensures
        stream_events(s, id) == Seq::<MyEvent>::empty(),
    decreases s.len(),
{
    if s.len() > 0 {
        lemma_stream_events_absent(s.drop_first(), id);
    }
}

proof fn lemma_stream_events_update(
    s: Seq<(Uuid, Vec<MyEvent>)>,
    i: int,
    p: (Uuid, Vec<MyEvent>),
    id: Uuid,
)
    requires
        0 <= i < s.len(),
        s[i].0 == p.0,
        p.0 != id,
    ensures
        stream_events(s.update(i, p), id) == stream_events(s, id),
    decreases s.len(),
{
    if i == 0 {
        assert(s.update(0, p).drop_first() =~= s.drop_first());
    } else {
        assert(s.update(i, p).drop_first() =~= s.drop_first().update(i - 1, p));
        lemma_stream_events_update(s.drop_first(), i - 1, p, id);
    }
}

proof fn lemma_stream_events_push(s: Seq<(Uuid, Vec<MyEvent>)>, p: (Uuid, Vec<MyEvent>), id: Uuid)
    requires
        p.0 != id,
    ensures
        stream_events(s.push(p), id) == stream_events(s, id),
    decreases s.len(),
{
    if s.len() == 0 {
        assert(s.push(p)[0] == p);
        assert(s.push(p).drop_first() =~= Seq::<(Uuid, Vec<MyEvent>)>::empty());
        assert(stream_events(Seq::<(Uuid, Vec<MyEvent>)>::empty(), id) =~= Seq::<MyEvent>::empty());
    } else {
        assert(s.push(p)[0] == s[0]);
        assert(s.push(p).drop_first() =~= s.drop_first().push(p));
        lemma_stream_events_push(s.drop_first(), p, id);
    }
}

proof fn lemma_stream_events_push_new(s: Seq<(Uuid, Vec<MyEvent>)>, p: (Uuid, Vec<MyEvent>))
    requires
        forall|j: int| 0 <= j < s.len() ==> (#[trigger] s[j]).0 != p.0,
    ensures
        stream_events(s.push(p), p.0) == p.1@,
    decreases s.len(),
{
    if s.len() == 0 {
        assert(s.push(p)[0] == p);
    } else {
        assert(s.push(p).drop_first() =~= s.drop_first().push(p));
        lemma_stream_events_push_new(s.drop_first(), p);
    }
}

impl MemoryEventStore {
    /// Well-formedness: one stream per aggregate, no stream empty, and
    /// every stream version-ordered from 1 with no gaps.
    pub open spec fn wf(&self) -> bool {
        &&& forall|i: int, j: int|
            0 <= i < j < self.streams@.len() ==> (#[trigger] self.streams@[i]).0 != (
            #[trigger] self.streams@[j]).0
        &&& forall|i: int|
            0 <= i < self.streams@.len() ==> stream_ok(
                (#[trigger] self.streams@[i]).0,
                self.streams@[i].1@,
            )
        &&& forall|i: int| 0 <= i < self.streams@.len() ==> (#[trigger] self.streams@[i]).1@.len()
            > 0
    }

    /// The stored history of the aggregate `id`, oldest first.
    pub open spec fn history(&self, id: Uuid) -> Seq<MyEvent> {
        stream_events(self.streams@, id)
    }

    /// An empty store.
    pub fn new() -> (s: MemoryEventStore)
        ensures
            s.streams@ == Seq::<(Uuid, Vec<MyEvent>)>::empty(),
            s.wf(),
    {
        MemoryEventStore { streams: Vec::new() }
    }

    /// Finds the index of the stream keyed by `id`.
    fn find_stream(&self, id: Uuid) -> (r: Option<usize>)
        ensures
            r is Some ==> 0 <= r->0 < self.streams@.len() && self.streams@[r->0 as int].0 == id
                && (forall|j: int| 0 <= j < r->0 ==> (#[trigger] self.streams@[j]).0 != id),
            r is None ==> forall|j: int|
                0 <= j < self.streams@.len() ==> (#[trigger] self.streams@[j]).0 != id,
    {
        let n = self.streams.len();
        let mut i: usize = 0;
        while i < n
            invariant
                n == self.streams@.len(),
                i <= n,
                forall|j: int| 0 <= j < i ==> (#[trigger] self.streams@[j]).0 != id,
            decreases n - i,
        {
            if self.streams[i].0 == id {
                return Some(i);
            }
            i = i + 1;
        }
        None
    }

    /// Checks the batch and appends it atomically: the check-and-append
    /// succeeds only if the last stored version for the batch's aggregate
    /// equals `expected_version`; otherwise nothing is written.
    pub fn save(&mut self, events: Vec<MyEvent>, expected_version: u64) -> (r: Result<
        (),
        EventStoreError,
    >)
        ensures
            r is Ok <==> save_accepted(old(self).streams@, events@, expected_version as int),
            r is Ok ==> final(self).history(events@[0].aggregate_id) == old(self).history(
                events@[0].aggregate_id,
            ) + events@,
            r is Ok ==> forall|id2: Uuid|
                id2 != events@[0].aggregate_id ==> final(self).history(id2) == old(self).history(
                    id2,
                ),
            r is Err ==> *final(self) == *old(self),
            r is Err && !batch_valid(events@, expected_version as int) ==> r->Err_0.kind
                == EventStoreErrorKind::InvalidInput,
            r is Err && batch_valid(events@, expected_version as int) ==> r->Err_0.kind
                == EventStoreErrorKind::ConcurrencyConflict,
            r is Err ==> r->Err_0.op is Some && r->Err_0.op->0@ == "save"@,
            r is Err ==> r->Err_0.aggregate_version == Some(expected_version),
            r is Err ==> r->Err_0.events == events,
            r is Err && events@.len() > 0 ==> r->Err_0.aggregate_id == Some(
                events@[0].aggregate_id,
            ),
            r is Err && events@.len() == 0 ==> r->Err_0.aggregate_id is None && r->Err_0.err
                is Some && r->Err_0.err->0@ == "missing events"@,
            r is Err && r->Err_0.kind == EventStoreErrorKind::ConcurrencyConflict ==> r
                ->Err_0.err is Some && r->Err_0.err->0@ == "version mismatch"@,
            r is Err && r->Err_0.kind == EventStoreErrorKind::InvalidInput && events@.len() > 0
                ==> r->Err_0.err is Some && (r->Err_0.err->0@ == "versions are not contiguous"@
                || r->Err_0.err->0@ == "events belong to different aggregates"@),
            old(self).wf() && r is Ok ==> final(self).wf(),
    {
        let n = events.len();
        if n == 0 {
            return Err(EventStoreError {
                kind: EventStoreErrorKind::InvalidInput,
                err: Some(String::from_str("missing events")),
                op: Some(String::from_str("save")),
                aggregate_type: None,
                aggregate_id: None,
                aggregate_version: Some(expected_version),
                events,
            });
        }
        let id = events[0].aggregate_id;
        if expected_version == u64::MAX || events[0].version != expected_version + 1 {
            return Err(EventStoreError {
                kind: EventStoreErrorKind::InvalidInput,
                err: Some(String::from_str("versions are not contiguous")),
                op: Some(String::from_str("save")),
                aggregate_type: None,
                aggregate_id: Some(id),
                aggregate_version: Some(expected_version),
                events,
            });
        }
        let mut k: usize = 1;
        while k < n
            invariant
                n == events@.len(),
                1 <= k <= n,
                id == events@[0].aggregate_id,
                forall|j: int| 0 <= j < k ==> (#[trigger] events@[j]).aggregate_id == id,
                forall|j: int|
                    0 <= j < k ==> (#[trigger] events@[j]).version == expected_version + j + 1,
            decreases n - k,
        {
            if events[k].aggregate_id != id {
                return Err(EventStoreError {
                    kind: EventStoreErrorKind::InvalidInput,
                    err: Some(String::from_str("events belong to different aggregates")),
                    op: Some(String::from_str("save")),
                    aggregate_type: None,
                    aggregate_id: Some(id),
                    aggregate_version: Some(expected_version),
                    events,
                });
            }
            let prev = events[k - 1].version;
            if prev == u64::MAX || events[k].version != prev + 1 {
                return Err(EventStoreError {
                    kind: EventStoreErrorKind::InvalidInput,
                    err: Some(String::from_str("versions are not contiguous")),
                    op: Some(String::from_str("save")),
                    aggregate_type: None,
                    aggregate_id: Some(id),
                    aggregate_version: Some(expected_version),
                    events,
                });
            }
            k = k + 1;
        }
        assert(batch_valid(events@, expected_version as int));
        match self.find_stream(id) {
            Some(i) => {
                proof {
                    lemma_stream_events_first_match(self.streams@, id, i as int);
                }
                let cur = self.streams[i].1.len();
                if !(cur as u64 == expected_version) {
                    return Err(EventStoreError {
                        kind: EventStoreErrorKind::ConcurrencyConflict,
                        err: Some(String::from_str("version mismatch")),
                        op: Some(String::from_str("save")),
                        aggregate_type: None,
                        aggregate_id: Some(id),
                        aggregate_version: Some(expected_version),
                        events,
                    });
                }
                let ghost pre = self.streams@;
                let mut pair = self.streams.remove(i);
                let ghost old_stream = pair.1@;
                let mut incoming = events;
                pair.1.append(&mut incoming);
                let ghost gpair = pair;
                self.streams.insert(i, pair);
                proof {
                    assert(self.streams@ =~= pre.update(i as int, gpair));
                    lemma_stream_events_first_match(self.streams@, id, i as int);
                    assert(stream_events(self.streams@, id) =~= stream_events(pre, id)
                        + events@);
                    assert forall|id2: Uuid| id2 != id implies stream_events(self.streams@, id2)
                        == stream_events(pre, id2) by {
                        lemma_stream_events_update(pre, i as int, gpair, id2);
                    }
                    if old(self).wf() {
                        assert forall|x: int|
                            0 <= x < self.streams@.len() implies stream_ok(
                            (#[trigger] self.streams@[x]).0,
                            self.streams@[x].1@,
                        ) by {
                            if x == i {
                                assert(stream_ok(id, pre[i as int].1@));
                                assert forall|y: int|
                                    0 <= y < gpair.1@.len() implies (#[trigger] gpair.1@[y])
                                    .aggregate_id == id && gpair.1@[y].version == y + 1 by {
                                    if y >= old_stream.len() {
                                        let z = y - old_stream.len();
                                        assert(gpair.1@[y] == events@[z]);
                                    } else {
                                        assert(gpair.1@[y] == old_stream[y]);
                                    }
                                }
                            } else {
                                assert(stream_ok(self.streams@[x].0, pre[x].1@));
                            }
                        }
                        assert forall|x: int|
                            0 <= x < self.streams@.len() implies (#[trigger] self.streams@[x]).1@
                            .len() > 0 by {
                            if x != i {
                                assert(self.streams@[x] == pre[x]);
                            }
                        }
                    }
                }
                Ok(())
            },
            None => {
                proof {
                    lemma_stream_events_absent(self.streams@, id);
                }
                if expected_version != 0 {
                    return Err(EventStoreError {
                        kind: EventStoreErrorKind::ConcurrencyConflict,
                        err: Some(String::from_str("version mismatch")),
                        op: Some(String::from_str("save")),
                        aggregate_type: None,
                        aggregate_id: Some(id),
                        aggregate_version: Some(expected_version),
                        events,
                    });
                }
                let ghost pre = self.streams@;
                let ghost batch = events@;
                let fresh_pair = (id, events);
                let ghost gpair = fresh_pair;
                self.streams.push(fresh_pair);
                proof {
                    assert(self.streams@ =~= pre.push(gpair));
                    lemma_stream_events_push_new(pre, gpair);
                    assert(stream_events(self.streams@, id) =~= stream_events(pre, id) + batch);
                    assert forall|id2: Uuid| id2 != id implies stream_events(self.streams@, id2)
                        == stream_events(pre, id2) by {
                        lemma_stream_events_push(pre, gpair, id2);
                    }
                }
                Ok(())
            },
        }
    }

    /// Returns the full history of the aggregate, oldest first; fails
    /// with `NotFound` if no events exist for it.
    pub fn load(&self, aggregate_id: Uuid) -> (r: Result<Vec<MyEvent>, EventStoreError>)
        ensures
            r is Ok <==> streams_has(self.streams@, aggregate_id),
            r is Ok ==> events_view(r->Ok_0@) == events_view(self.history(aggregate_id)),
            r is Err ==> r->Err_0.kind == EventStoreErrorKind::NotFound,
            r is Err ==> {
                &&& r->Err_0.op is Some && r->Err_0.op->0@ == "load"@
                &&& r->Err_0.err is Some && r->Err_0.err->0@ == "aggregate not found"@
                &&& r->Err_0.aggregate_id == Some(aggregate_id)
                &&& r->Err_0.aggregate_version is None
                &&& r->Err_0.events@.len() == 0
            },
    {
        match self.find_stream(aggregate_id) {
            Some(i) => {
                proof {
                    lemma_stream_events_first_match(self.streams@, aggregate_id, i as int);
                }
                let stream = &self.streams[i].1;
                let m = stream.len();
                let mut out: Vec<MyEvent> = Vec::new();
                let mut k: usize = 0;
                while k < m
                    invariant
                        m == stream@.len(),
                        k <= m,
                        out@.len() == k,
                        forall|j: int| 0 <= j < k ==> (#[trigger] out@[j])@ == stream@[j]@,
                    decreases m - k,
                {
                    out.push(stream[k].duplicate());
                    k = k + 1;
                }
                proof {
                    assert(events_view(out@) =~= events_view(stream@));
                }
                Ok(out)
            },
            None => {
                proof {
                    lemma_stream_events_absent(self.streams@, aggregate_id);
                }
                Err(EventStoreError {
                    kind: EventStoreErrorKind::NotFound,
                    err: Some(String::from_str("aggregate not found")),
                    op: Some(String::from_str("load")),
                    aggregate_type: None,
                    aggregate_id: Some(aggregate_id),
                    aggregate_version: None,
                    events: Vec::new(),
                })
            },
        }
    }

    /// Returns the events of the aggregate with version at or after
    /// `version`; fails with `NotFound` if the aggregate is unknown or no
    /// event reaches that version.
    pub fn load_from(&self, aggregate_id: Uuid, version: u64) -> (r: Result<
        Vec<MyEvent>,
        EventStoreError,
    >)
        ensures
            r is Ok <==> streams_has(self.streams@, aggregate_id) && events_from_version(
                self.history(aggregate_id),
                version,
            ).len() > 0,
            r is Ok ==> events_view(r->Ok_0@) == events_view(
                events_from_version(self.history(aggregate_id), version),
            ),
            r is Err ==> r->Err_0.kind == EventStoreErrorKind::NotFound,
            r is Err ==> {
                &&& r->Err_0.op is Some && r->Err_0.op->0@ == "load_from"@
                &&& r->Err_0.err is Some
                &&& r->Err_0.aggregate_id == Some(aggregate_id)
                &&& r->Err_0.aggregate_version == Some(version)
                &&& r->Err_0.events@.len() == 0
            },
            r is Err && !streams_has(self.streams@, aggregate_id) ==> r->Err_0.err->0@
                == "aggregate not found"@,
            r is Err && streams_has(self.streams@, aggregate_id) ==> r->Err_0.err->0@
                == "no events at or after that version"@,
    {
        match self.find_stream(aggregate_id) {
            Some(i) => {
                proof {
                    lemma_stream_events_first_match(self.streams@, aggregate_id, i as int);
                }
                let stream = &self.streams[i].1;
                let m = stream.len();
                let mut out: Vec<MyEvent> = Vec::new();
                let mut k: usize = 0;
                while k < m
                    invariant
                        m == stream@.len(),
                        k <= m,
                        events_view(out@) == events_view(
                            events_from_version(stream@.subrange(0, k as int), version),
                        ),
                    decreases m - k,
                {
                    let ghost pre = stream@.subrange(0, k as int);
                    proof {
                        assert(stream@.subrange(0, k as int + 1).drop_last() =~= pre);
                        assert(stream@.subrange(0, k as int + 1).last() == stream@[k as int]);
                    }
                    if stream[k].version >= version {
                        let ghost out_pre = out@;
                        out.push(stream[k].duplicate());
                        proof {
                            let efv_new = events_from_version(
                                stream@.subrange(0, k as int + 1),
                                version,
                            );
                            let efv_pre = events_from_version(pre, version);
                            assert(efv_new =~= efv_pre.push(stream@[k as int]));
                            assert(events_view(out_pre).len() == events_view(efv_pre).len());
                            assert(out_pre.len() == efv_pre.len());
                            assert forall|j: int| 0 <= j < out@.len() implies (
                            #[trigger] events_view(out@)[j]) == events_view(efv_new)[j] by {
                                if j < out_pre.len() {
                                    assert(events_view(out_pre)[j] == events_view(efv_pre)[j]);
                                    assert(out@[j] == out_pre[j]);
                                    assert(efv_new[j] == efv_pre[j]);
                                } else {
                                    assert(out@[j]@ == stream@[k as int]@);
                                    assert(efv_new[j] == stream@[k as int]);
                                }
                            }
                            assert(events_view(out@) =~= events_view(efv_new));
                        }
                    }
                    k = k + 1;
                }
                proof {
                    assert(stream@.subrange(0, m as int) =~= stream@);
                }
                if out.is_empty() {
                    proof {
                        assert(events_view(events_from_version(stream@, version)).len()
                            == events_from_version(stream@, version).len());
                    }
                    return Err(EventStoreError {
                        kind: EventStoreErrorKind::NotFound,
                        err: Some(String::from_str("no events at or after that version")),
                        op: Some(String::from_str("load_from")),
                        aggregate_type: None,
                        aggregate_id: Some(aggregate_id),
                        aggregate_version: Some(version),
                        events: Vec::new(),
                    });
                }
                proof {
                    assert(events_view(events_from_version(stream@, version)).len()
                        == events_from_version(stream@, version).len());
                }
                Ok(out)
            },
            None => {
                Err(EventStoreError {
                    kind: EventStoreErrorKind::NotFound,
                    err: Some(String::from_str("aggregate not found")),
                    op: Some(String::from_str("load_from")),
                    aggregate_type: None,
                    aggregate_id: Some(aggregate_id),
                    aggregate_version: Some(version),
                    events: Vec::new(),
                })
            },
        }
    }

    /// Releases the store's resources; the in-memory store holds none, so
    /// the state is left as it is.
    pub fn close(&mut self) -> (r: Result<(), EventStoreError>)
        ensures
            r is Ok,
            *final(self) == *old(self),
    {
        Ok(())
    }
}

impl EventStore for MemoryEventStore {
    fn save(&mut self, events: Vec<MyEvent>, expected_version: u64) -> (r: Result<
        (),
        EventStoreError,
    >)
        ensures
            r is Ok <==> save_accepted(old(self).streams@, events@, expected_version as int),
            r is Err ==> *final(self) == *old(self),
    {
        MemoryEventStore::save(self, events, expected_version)
    }

    fn load(&self, aggregate_id: Uuid) -> (r: Result<Vec<MyEvent>, EventStoreError>)
        ensures
            r is Ok <==> streams_has(self.streams@, aggregate_id),
    {
        MemoryEventStore::load(self, aggregate_id)
    }

    fn load_from(&self, aggregate_id: Uuid, version: u64) -> (r: Result<
        Vec<MyEvent>,
        EventStoreError,
    >)
        ensures
            r is Ok ==> events_view(r->Ok_0@) == events_view(
                events_from_version(self.history(aggregate_id), version),
            ),
    {
        MemoryEventStore::load_from(self, aggregate_id, version)
    }

    fn close(&mut self) -> (r: Result<(), EventStoreError>)
        ensures
            *final(self) == *old(self),
    {
        MemoryEventStore::close(self)
    }
}

/// In a well-formed store, an aggregate has a stream exactly when its
/// history is non-empty: streams are created only by a first append,
/// which stores at least one event.
pub proof fn lemma_has_iff_nonempty(s: Seq<(Uuid, Vec<MyEvent>)>, id: Uuid)
    requires
        forall|i: int| 0 <= i < s.len() ==> (#[trigger] s[i]).1@.len() > 0,
    ensures
        streams_has(s, id) <==> stream_events(s, id).len() > 0,
    decreases s.len(),
{
    if s.len() > 0 {
        assert(s[0] == s[0]);
        if s[0].0 != id {
            lemma_has_iff_nonempty(s.drop_first(), id);
            if streams_has(s, id) {
                let i = choose|i: int| 0 <= i < s.len() && (#[trigger] s[i]).0 == id;
                assert(s.drop_first()[i - 1].0 == id);
            }
            if streams_has(s.drop_first(), id) {
                let i = choose|i: int|
                    0 <= i < s.drop_first().len() && (#[trigger] s.drop_first()[i]).0 == id;
                assert(s[i + 1].0 == id);
            }
        }
    }
}

/// In a well-formed store, the history loaded for an aggregate with N
/// stored events carries versions exactly `1 ..= N`, in order, all for
/// that aggregate.
pub proof fn lemma_history_versions(store: MemoryEventStore, id: Uuid)
    requires
        store.wf(),
    ensures
        forall|k: int|
            0 <= k < store.history(id).len() ==> (#[trigger] store.history(id)[k]).aggregate_id
                == id && store.history(id)[k].version == k + 1,
    decreases store.streams@.len(),
{
    lemma_history_versions_rec(store.streams@, id);
}

proof fn lemma_history_versions_rec(s: Seq<(Uuid, Vec<MyEvent>)>, id: Uuid)
    requires
        forall|i: int| 0 <= i < s.len() ==> stream_ok((#[trigger] s[i]).0, s[i].1@),
    ensures
        stream_ok(id, stream_events(s, id)),
    decreases s.len(),
{
    if s.len() > 0 {
        if s[0].0 == id {
            assert(stream_ok(s[0].0, s[0].1@));
        } else {
            assert(forall|i: int|
                0 <= i < s.drop_first().len() ==> stream_ok(
                    (#[trigger] s.drop_first()[i]).0,
                    s.drop_first()[i].1@,
                ));
            lemma_history_versions_rec(s.drop_first(), id);
        }
    }
}

/// In a well-formed store, asking for the suffix at or after `version`
/// returns exactly the stored history from position `version - 1` on:
/// the suffix, nothing dropped, nothing reordered.
pub proof fn lemma_load_from_is_suffix(store: MemoryEventStore, id: Uuid, version: u64)
    requires
        store.wf(),
        1 <= version,
        version - 1 <= store.history(id).len(),
    ensures
        events_from_version(store.history(id), version) == store.history(id).subrange(
            version - 1,
            store.history(id).len() as int,
        ),
{
    lemma_history_versions_rec(store.streams@, id);
    lemma_events_from_version_suffix(store.history(id), id, version);
}

proof fn lemma_events_from_version_suffix(events: Seq<MyEvent>, id: Uuid, version: u64)
    requires
        stream_ok(id, events),
        1 <= version,
        version - 1 <= events.len(),
    ensures
        events_from_version(events, version) == events.subrange(
            version - 1,
            events.len() as int,
        ),
    decreases events.len(),
{
    if events.len() == 0 {
        assert(events_from_version(events, version) =~= events.subrange(0, 0));
    } else if version - 1 == events.len() {
        lemma_events_from_version_none(events, version);
        assert(events_from_version(events, version) =~= events.subrange(
            version - 1,
            events.len() as int,
        ));
    } else {
        assert(events.last().version == events.len());
        assert(events.last().version >= version);
        assert(forall|k: int|
            0 <= k < events.drop_last().len() ==> (#[trigger] events.drop_last()[k])
                == events[k]);
        lemma_events_from_version_suffix(events.drop_last(), id, version);
        assert(events_from_version(events, version) =~= events.subrange(
            version - 1,
            events.len() as int,
        ));
    }
}

proof fn lemma_events_from_version_none(events: Seq<MyEvent>, version: u64)
    requires
        forall|k: int| 0 <= k < events.len() ==> (#[trigger] events[k]).version < version,
    ensures
        events_from_version(events, version) == Seq::<MyEvent>::empty(),
    decreases events.len(),
{
    if events.len() > 0 {
        assert(forall|k: int|
            0 <= k < events.drop_last().len() ==> (#[trigger] events.drop_last()[k])
                == events[k]);
        lemma_events_from_version_none(events.drop_last(), version);
    }
}

/// Optimistic concurrency: of two well-formed batches saved against the
/// same aggregate with the same expected version, at most one is
/// accepted — once the first has been appended, the second meets a
/// different current version and is turned away with a conflict.
pub proof fn lemma_optimistic_concurrency(
    before: MemoryEventStore,
    after: MemoryEventStore,
    first: Seq<MyEvent>,
    second: Seq<MyEvent>,
    expected: int,
)
    requires
        save_accepted(before.streams@, first, expected),
        after.history(first[0].aggregate_id) == before.history(first[0].aggregate_id) + first,
        batch_valid(second, expected),
        second[0].aggregate_id == first[0].aggregate_id,
    ensures
        !save_accepted(after.streams@, second, expected),
{
    assert(current_version(after.streams@, first[0].aggregate_id) == expected + first.len());
}

} // verus!
