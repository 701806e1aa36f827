//! Events: immutable records of domain changes, with an opaque payload.
//!
//! An event is a fixed-shape record — type tag, aggregate type, aggregate
//! identifier, version, timestamp, payload, metadata — so that storage and
//! dispatch never need per-payload knowledge.  Payloads are opaque bytes
//! tagged by the event type.

use vstd::prelude::*;
use crate::uuid::Uuid;

verus! {

/// An opaque event payload: plain bytes, interpreted only by the codec
/// boundary outside this crate.
#[derive(Debug)]
pub struct EventData {
    pub bytes: Vec<u8>,
}

impl View for EventData {
    type V = Seq<u8>;

    open spec fn view(&self) -> Seq<u8> {
        self.bytes@
    }
}

/// The mathematical model of an event: every field as a plain value.
pub struct EventView {
    pub event_type: Seq<char>,
    pub data: Seq<u8>,
    pub timestamp: u64,
    pub aggregate_type: Seq<char>,
    pub aggregate_id: Uuid,
    pub version: u64,
    pub metadata: Seq<(Seq<char>, Seq<char>)>,
}

/// The model of a metadata table: each key and value as a character
/// sequence, order kept.
pub open spec fn metadata_view(m: Seq<(String, String)>) -> Seq<(Seq<char>, Seq<char>)> {
    m.map_values(|p: (String, String)| (p.0@, p.1@))
}

/// Compares two string slices character for character.
pub fn str_eq(a: &str, b: &str) -> (r: bool)
    ensures
        r == (a@ == b@),
{
    let na = a.unicode_len();
    let nb = b.unicode_len();
    if na != nb {
        return false;
    }
    let mut i: usize = 0;
    while i < na
        invariant
            na == a@.len(),
            nb == b@.len(),
            na == nb,
            i <= na,
            forall|j: int| 0 <= j < i ==> a@[j] == b@[j],
        decreases na - i,
    {
        if a.get_char(i) != b.get_char(i) {
            return false;
        }
        i = i + 1;
    }
    proof {
        assert(a@ =~= b@);
    }
    true
}

/// Copies a byte vector, element for element.
pub(crate) fn clone_bytes(v: &Vec<u8>) -> (r: Vec<u8>)
    ensures
        r@ == v@,
{
    let mut r: Vec<u8> = Vec::new();
    let mut i: usize = 0;
    while i < v.len()
        invariant
            i <= v.len(),
            r@ == v@.subrange(0, i as int),
        decreases v.len() - i,
    {
        r.push(v[i]);
        proof {
            assert(r@ =~= v@.subrange(0, i as int + 1));
        }
        i = i + 1;
    }
    proof {
        assert(r@ =~= v@);
    }
    r
}

/// Copies a vector of key/value string pairs, element for element.
pub(crate) fn clone_string_pairs(v: &Vec<(String, String)>) -> (r: Vec<(String, String)>)
    ensures
        r@ == v@,
{
    let mut r: Vec<(String, String)> = Vec::new();
    let mut i: usize = 0;
    while i < v.len()
        invariant
            i <= v.len(),
            r@ == v@.subrange(0, i as int),
        decreases v.len() - i,
    {
        let pair = &v[i];
        r.push((pair.0.clone(), pair.1.clone()));
        proof {
            assert(r@ =~= v@.subrange(0, i as int + 1));
        }
        i = i + 1;
    }
    proof {
        assert(r@ =~= v@);
    }
    r
}

impl EventData {
    /// Wraps raw payload bytes.
    pub fn new(bytes: Vec<u8>) -> (d: EventData)
        ensures
            d.bytes == bytes,
    {
        EventData { bytes }
    }

    /// An empty payload.
    pub fn empty() -> (d: EventData)
        ensures
            d.bytes@ == Seq::<u8>::empty(),
    {
        EventData { bytes: Vec::new() }
    }

    /// Copies the payload.
    pub fn duplicate(&self) -> (d: EventData)
        ensures
            d.bytes@ == self.bytes@,
    {
        EventData { bytes: clone_bytes(&self.bytes) }
    }
}

/// An example payload carrying one string field.
#[derive(Debug)]
pub struct MyEventData {
    pub field: String,
}

impl MyEventData {
    /// Turns the field into an opaque payload: its UTF-8 bytes.
    pub fn to_event_data(&self) -> (d: EventData)
        ensures
            d.bytes@ == vstd::utf8::encode_utf8(self.field@),
    {
        EventData { bytes: self.field.as_str().as_bytes_vec() }
    }
}

/// An immutable event: what happened, to which aggregate, at which version.
#[derive(Debug)]
pub struct MyEvent {
    pub event_type: String,
    pub data: EventData,
    pub timestamp: u64,
    pub aggregate_type: String,
    pub aggregate_id: Uuid,
    pub version: u64,
    pub metadata: Vec<(String, String)>,
}

impl View for MyEvent {
    type V = EventView;

    open spec fn view(&self) -> EventView {
        EventView {
            event_type: self.event_type@,
            data: self.data@,
            timestamp: self.timestamp,
            aggregate_type: self.aggregate_type@,
            aggregate_id: self.aggregate_id,
            version: self.version,
            metadata: metadata_view(self.metadata@),
        }
    }
}

impl MyEvent {
    /// Builds an event with the given shape, no metadata, and a zero
    /// timestamp; the storage edge stamps the time.
    pub fn new(
        event_type: String,
        data: EventData,
        aggregate_type: String,
        aggregate_id: Uuid,
        version: u64,
    ) -> (e: MyEvent)
        ensures
            e@ == (EventView {
                event_type: event_type@,
                data: data@,
                timestamp: 0,
                aggregate_type: aggregate_type@,
                aggregate_id,
                version,
                metadata: Seq::<(Seq<char>, Seq<char>)>::empty(),
            }),
    {
        proof {
            assert(metadata_view(Seq::<(String, String)>::empty()) =~= Seq::<(
                Seq<char>,
                Seq<char>,
            )>::empty());
        }
        MyEvent {
            event_type,
            data,
            timestamp: 0,
            aggregate_type,
            aggregate_id,
            version,
            metadata: Vec::new(),
        }
    }

    /// The same event at the given time.
    pub fn with_timestamp(self, timestamp: u64) -> (e: MyEvent)
        ensures
            e@ == (EventView { timestamp, ..self@ }),
    {
        MyEvent { timestamp, ..self }
    }

    /// Appends one metadata entry.
    pub fn insert_metadata(&mut self, key: String, value: String)
        ensures
            final(self)@ == (EventView {
                metadata: old(self)@.metadata.push((key@, value@)),
                ..old(self)@
            }),
    {
        self.metadata.push((key, value));
        proof {
            assert(metadata_view(self.metadata@) =~= metadata_view(old(self).metadata@).push(
                (key@, value@),
            ));
        }
    }

    /// The event's type tag.
    pub fn event_type(&self) -> (t: String)
        ensures
            t@ == self@.event_type,
    {
        self.event_type.clone()
    }

    /// The event's payload.
    pub fn data(&self) -> (d: &EventData)
        ensures
            d@ == self@.data,
    {
        &self.data
    }

    /// The event's timestamp.
    pub fn timestamp(&self) -> (t: u64)
        ensures
            t == self@.timestamp,
    {
        self.timestamp
    }

    /// The type of the aggregate the event belongs to.
    pub fn aggregate_type(&self) -> (t: String)
        ensures
            t@ == self@.aggregate_type,
    {
        self.aggregate_type.clone()
    }

    /// The identifier of the aggregate the event belongs to.
    pub fn aggregate_id(&self) -> (id: Uuid)
        ensures
            id == self@.aggregate_id,
    {
        self.aggregate_id
    }

    /// The event's version within its aggregate, 1-based.
    pub fn version(&self) -> (v: u64)
        ensures
            v == self@.version,
    {
        self.version
    }

    /// A copy of the event's metadata, order kept.
    pub fn metadata(&self) -> (m: Vec<(String, String)>)
        ensures
            metadata_view(m@) == self@.metadata,
    {
        clone_string_pairs(&self.metadata)
    }

    /// A short description of the event.
    pub fn to_text(&self) -> (t: String)
        ensures
            t@ == "Event type: "@ + self@.event_type,
    {
        let prefix: String = String::from_str("Event type: ");
        prefix.concat(self.event_type.as_str())
    }

    /// A field-for-field copy of the event.
    pub fn duplicate(&self) -> (e: MyEvent)
        ensures
            e@ == self@,
    {
        MyEvent {
            event_type: self.event_type.clone(),
            data: self.data.duplicate(),
            timestamp: self.timestamp,
            aggregate_type: self.aggregate_type.clone(),
            aggregate_id: self.aggregate_id,
            version: self.version,
            metadata: clone_string_pairs(&self.metadata),
        }
    }
}

/// Copies each event of `v`, model for model.
pub fn duplicate_events(v: &Vec<MyEvent>) -> (r: Vec<MyEvent>)
    ensures
        r@.len() == v@.len(),
        forall|k: int| 0 <= k < v@.len() ==> (#[trigger] r@[k])@ == v@[k]@,
{
    let mut r: Vec<MyEvent> = Vec::new();
    let n = v.len();
    let mut i: usize = 0;
    while i < n
        invariant
            n == v@.len(),
            i <= n,
            r@.len() == i,
            forall|k: int| 0 <= k < i ==> (#[trigger] r@[k])@ == v@[k]@,
        decreases n - i,
    {
        r.push(v[i].duplicate());
        i = i + 1;
    }
    r
}

/// The error returned when no payload prototype is registered for a type.
#[derive(Clone, Copy, Debug, PartialEq, Eq, Structural)]
pub struct EventDataNotRegistered;

/// Maps an event type tag to the payload prototype new instances are copied
/// from.  Owned by the composition root; registration happens at wiring
/// time, lookup thereafter.
pub struct EventDataRegistry {
    pub entries: Vec<(String, EventData)>,
}

/// True if some entry of `entries` carries the type tag `t`.
pub open spec fn registry_has_type(entries: Seq<(String, EventData)>, t: Seq<char>) -> bool {
    exists|i: int| 0 <= i < entries.len() && #[trigger] entries[i].0@ == t
}

/// The payload bytes of the first entry of `entries` carrying the type tag
/// `t`, or `None`.
pub open spec fn registry_first(entries: Seq<(String, EventData)>, t: Seq<char>) -> Option<
    Seq<u8>,
>
    decreases entries.len(),
{
    if entries.len() == 0 {
        None
    } else if entries[0].0@ == t {
        Some(entries[0].1.bytes@)
    } else {
        registry_first(entries.drop_first(), t)
    }
}

proof fn lemma_registry_first_some(entries: Seq<(String, EventData)>, t: Seq<char>)
    ensures
        registry_first(entries, t) is Some <==> registry_has_type(entries, t),
    decreases entries.len(),
{
    if entries.len() > 0 {
        lemma_registry_first_some(entries.drop_first(), t);
        if registry_has_type(entries, t) && entries[0].0@ != t {
            let i = choose|i: int| 0 <= i < entries.len() && #[trigger] entries[i].0@ == t;
            assert(entries.drop_first()[i - 1].0@ == t);
        }
        if registry_has_type(entries.drop_first(), t) {
            let i = choose|i: int|
                0 <= i < entries.drop_first().len() && #[trigger] entries.drop_first()[i].0@ == t;
            assert(entries[i + 1].0@ == t);
        }
    }
}

impl EventDataRegistry {
    /// An empty registry.
    pub fn new() -> (r: EventDataRegistry)
        ensures
            r.entries@ == Seq::<(String, EventData)>::empty(),
    {
        EventDataRegistry { entries: Vec::new() }
    }
}

/// Registers a payload prototype for an event type.  Registering the same
/// type twice is a caller error, kept out by the precondition.
pub fn register_event_data(registry: &mut EventDataRegistry, event_type: String, data: EventData)
    requires
        !registry_has_type(old(registry).entries@, event_type@),
    ensures
        final(registry).entries@ == old(registry).entries@.push((event_type, data)),
{
    registry.entries.push((event_type, data));
}

/// Returns a copy of the payload registered for `event_type`, or an error
/// if none is registered.
pub fn create_event_data(registry: &EventDataRegistry, event_type: &str) -> (r: Result<
    EventData,
    EventDataNotRegistered,
>)
    ensures
        r is Ok <==> registry_has_type(registry.entries@, event_type@),
        r is Ok ==> Some(r->Ok_0.bytes@) == registry_first(registry.entries@, event_type@),
{
    proof {
        lemma_registry_first_some(registry.entries@, event_type@);
    }
    let n = registry.entries.len();
    proof {
        assert(registry.entries@.subrange(0, n as int) =~= registry.entries@);
    }
    let mut i: usize = 0;
    while i < n
        invariant
            n == registry.entries@.len(),
            i <= n,
            registry_first(registry.entries@, event_type@) == registry_first(
                registry.entries@.subrange(i as int, n as int),
                event_type@,
            ),
            forall|j: int| 0 <= j < i ==> #[trigger] registry.entries@[j].0@ != event_type@,
        decreases n - i,
    {
        let entry = &registry.entries[i];
        if str_eq(entry.0.as_str(), event_type) {
            return Ok(entry.1.duplicate());
        }
        proof {
            assert(registry.entries@.subrange(i as int, n as int).drop_first()
                =~= registry.entries@.subrange(i as int + 1, n as int));
        }
        i = i + 1;
    }
    proof {
        assert(registry.entries@.subrange(n as int, n as int).len() == 0);
        lemma_registry_first_some(registry.entries@, event_type@);
    }
    Err(EventDataNotRegistered)
}

} // verus!
