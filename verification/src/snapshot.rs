//! Snapshots: cached aggregate state at a given version.
//!
//! A snapshot is never authoritative — the events beyond its version are
//! always the source of truth and are replayed on top of it.  This module
//! also holds the registry mapping an aggregate type to the prototype its
//! snapshot state is copied from.

use vstd::prelude::*;
use crate::uuid::Uuid;

verus! {

/// The name of an aggregate type, used as a registry key.
#[derive(Debug)]
pub struct AggregateType(pub String);

/// A cached checkpoint of aggregate state: the state blob together with
/// the version it was captured at.
#[derive(Debug)]
pub struct Snapshot<D> {
    pub version: u64,
    pub aggregate_type: AggregateType,
    pub timestamp: u64,
    pub state: D,
}

/// The mathematical model of a snapshot: every field as a plain value.
pub struct SnapshotView<DV> {
    pub version: u64,
    pub aggregate_type: Seq<char>,
    pub timestamp: u64,
    pub state: DV,
}

impl<D: View> View for Snapshot<D> {
    type V = SnapshotView<D::V>;

    open spec fn view(&self) -> SnapshotView<D::V> {
        SnapshotView {
            version: self.version,
            aggregate_type: self.aggregate_type.0@,
            timestamp: self.timestamp,
            state: self.state@,
        }
    }
}

/// Marker for types that can serve as snapshot state.
pub trait SnapshotData {

}

/// Copying for snapshot state: the copy models the same value.
pub trait SnapshotDataClone: View + Sized {
    fn clone_data(&self) -> (c: Self)
        ensures
            c@ == self@,
    ;
}

/// An entity that can capture its state as a snapshot and restore from
/// one.
pub trait Snapshotable<D>: Sized {
    fn create_snapshot(&self) -> Snapshot<D>;

    fn apply_snapshot(&mut self, snapshot: &Snapshot<D>);
}

impl SnapshotData for crate::event::EventData {

}

impl SnapshotDataClone for crate::event::EventData {
    fn clone_data(&self) -> (c: Self)
        ensures
            c@ == self@,
    {
        self.duplicate()
    }
}

impl<D: SnapshotDataClone> Snapshot<D> {
    /// A copy of the snapshot whose model is the same.
    pub fn duplicate(&self) -> (s: Snapshot<D>)
        ensures
            s@ == self@,
    {
        Snapshot {
            version: self.version,
            aggregate_type: AggregateType(self.aggregate_type.0.clone()),
            timestamp: self.timestamp,
            state: self.state.clone_data(),
        }
    }
}

/// True if some entry of `entries` holds a snapshot for the aggregate
/// `id`.
pub open spec fn snapshots_has<D>(entries: Seq<(Uuid, Snapshot<D>)>, id: Uuid) -> bool {
    exists|i: int| 0 <= i < entries.len() && (#[trigger] entries[i]).0 == id
}

/// The first snapshot stored for `id`, or `None`.
pub open spec fn snapshots_first<D>(entries: Seq<(Uuid, Snapshot<D>)>, id: Uuid) -> Option<
    Snapshot<D>,
>
    decreases entries.len(),
{
    if entries.len() == 0 {
        None
    } else if entries[0].0 == id {
        Some(entries[0].1)
    } else {
        snapshots_first(entries.drop_first(), id)
    }
}

proof fn lemma_snapshots_first_match<D>(entries: Seq<(Uuid, Snapshot<D>)>, id: Uuid, i: int)
    requires
        0 <= i < entries.len(),
        entries[i].0 == id,
        forall|j: int| 0 <= j < i ==> (#[trigger] entries[j]).0 != id,
    ensures
        snapshots_first(entries, id) == Some(entries[i].1),
    decreases entries.len(),
{
    if i > 0 {
        lemma_snapshots_first_match(entries.drop_first(), id, i - 1);
    }
}

proof fn lemma_snapshots_absent<D>(entries: Seq<(Uuid, Snapshot<D>)>, id: Uuid)
    requires
        forall|j: int| 0 <= j < entries.len() ==> (#[trigger] entries[j]).0 != id,
    ensures
        snapshots_first(entries, id) is None,
    decreases entries.len(),
{
    if entries.len() > 0 {
        lemma_snapshots_absent(entries.drop_first(), id);
    }
}

proof fn lemma_snapshots_update<D>(
    entries: Seq<(Uuid, Snapshot<D>)>,
    i: int,
    p: (Uuid, Snapshot<D>),
    id: Uuid,
)
    requires
        0 <= i < entries.len(),
        entries[i].0 == p.0,
        p.0 != id,
    ensures
        snapshots_first(entries.update(i, p), id) == snapshots_first(entries, id),
    decreases entries.len(),
{
    if i == 0 {
        assert(entries.update(0, p).drop_first() =~= entries.drop_first());
    } else {
        assert(entries.update(i, p).drop_first() =~= entries.drop_first().update(i - 1, p));
        lemma_snapshots_update(entries.drop_first(), i - 1, p, id);
    }
}

proof fn lemma_snapshots_push<D>(
    entries: Seq<(Uuid, Snapshot<D>)>,
    p: (Uuid, Snapshot<D>),
    id: Uuid,
)
    requires
        p.0 != id,
    ensures
        snapshots_first(entries.push(p), id) == snapshots_first(entries, id),
    decreases entries.len(),
{
    if entries.len() == 0 {
        assert(entries.push(p)[0] == p);
        assert(entries.push(p).drop_first() =~= Seq::<(Uuid, Snapshot<D>)>::empty());
        assert(snapshots_first(Seq::<(Uuid, Snapshot<D>)>::empty(), id) is None);
    } else {
        assert(entries.push(p)[0] == entries[0]);
        assert(entries.push(p).drop_first() =~= entries.drop_first().push(p));
        lemma_snapshots_push(entries.drop_first(), p, id);
    }
}

proof fn lemma_snapshots_push_new<D>(entries: Seq<(Uuid, Snapshot<D>)>, p: (Uuid, Snapshot<D>))
    requires
        forall|j: int| 0 <= j < entries.len() ==> (#[trigger] entries[j]).0 != p.0,
    ensures
        snapshots_first(entries.push(p), p.0) == Some(p.1),
    decreases entries.len(),
{
    if entries.len() == 0 {
        assert(entries.push(p)[0] == p);
    } else {
        assert(entries.push(p)[0] == entries[0]);
        assert(entries.push(p).drop_first() =~= entries.drop_first().push(p));
        lemma_snapshots_push_new(entries.drop_first(), p);
    }
}

/// An in-memory snapshot store: at most one snapshot per aggregate, the
/// latest kept.
pub struct MemorySnapshotStore<D> {
    pub entries: Vec<(Uuid, Snapshot<D>)>,
}

impl<D: SnapshotDataClone> MemorySnapshotStore<D> {
    /// Well-formedness: at most one snapshot per aggregate.
    pub open spec fn wf(&self) -> bool {
        forall|i: int, j: int|
            0 <= i < j < self.entries@.len() ==> (#[trigger] self.entries@[i]).0 != (
            #[trigger] self.entries@[j]).0
    }

    /// The stored snapshot for `id`, if any.
    pub open spec fn stored(&self, id: Uuid) -> Option<Snapshot<D>> {
        snapshots_first(self.entries@, id)
    }

    /// An empty store.
    pub fn new() -> (s: MemorySnapshotStore<D>)
        ensures
            s.entries@ == Seq::<(Uuid, Snapshot<D>)>::empty(),
            s.wf(),
    {
        MemorySnapshotStore { entries: Vec::new() }
    }

    fn find(&self, id: Uuid) -> (r: Option<usize>)
        ensures
            r is Some ==> 0 <= r->0 < self.entries@.len() && self.entries@[r->0 as int].0 == id
                && (forall|j: int| 0 <= j < r->0 ==> (#[trigger] self.entries@[j]).0 != id),
            r is None ==> forall|j: int|
                0 <= j < self.entries@.len() ==> (#[trigger] self.entries@[j]).0 != id,
    {
        let n = self.entries.len();
        let mut i: usize = 0;
        while i < n
            invariant
                n == self.entries@.len(),
                i <= n,
                forall|j: int| 0 <= j < i ==> (#[trigger] self.entries@[j]).0 != id,
            decreases n - i,
        {
            if self.entries[i].0 == id {
                return Some(i);
            }
            i = i + 1;
        }
        None
    }

    /// Returns a copy of the stored snapshot for the aggregate; absence
    /// is not an error.
    pub fn load_snapshot(&self, aggregate_id: Uuid) -> (r: Result<Option<Snapshot<D>>, String>)
        ensures
            r is Ok,
            r->Ok_0 is Some <==> self.stored(aggregate_id) is Some,
            r->Ok_0 is Some ==> r->Ok_0->0@ == self.stored(aggregate_id)->0@,
    {
        match self.find(aggregate_id) {
            Some(i) => {
                proof {
                    lemma_snapshots_first_match(self.entries@, aggregate_id, i as int);
                }
                Ok(Some(self.entries[i].1.duplicate()))
            },
            None => {
                proof {
                    lemma_snapshots_absent(self.entries@, aggregate_id);
                }
                Ok(None)
            },
        }
    }

    /// Stores the snapshot for the aggregate, overwriting any prior one.
    pub fn save_snapshot(&mut self, aggregate_id: Uuid, snapshot: Snapshot<D>) -> (r: Result<
        (),
        String,
    >)
        ensures
            r is Ok,
            final(self).stored(aggregate_id) == Some(snapshot),
            forall|id2: Uuid|
                id2 != aggregate_id ==> final(self).stored(id2) == old(self).stored(id2),
            old(self).wf() ==> final(self).wf(),
    {
        match self.find(aggregate_id) {
            Some(i) => {
                let ghost pre = self.entries@;
                let _prior = self.entries.remove(i);
                let fresh_pair = (aggregate_id, snapshot);
                let ghost gpair = fresh_pair;
                self.entries.insert(i, fresh_pair);
                proof {
                    assert(self.entries@ =~= pre.update(i as int, gpair));
                    lemma_snapshots_first_match(self.entries@, aggregate_id, i as int);
                    assert forall|id2: Uuid| id2 != aggregate_id implies snapshots_first(
                        self.entries@,
                        id2,
                    ) == snapshots_first(pre, id2) by {
                        lemma_snapshots_update(pre, i as int, gpair, id2);
                    }
                }
                Ok(())
            },
            None => {
                let ghost pre = self.entries@;
                let fresh_pair = (aggregate_id, snapshot);
                let ghost gpair = fresh_pair;
                self.entries.push(fresh_pair);
                proof {
                    assert(self.entries@ =~= pre.push(gpair));
                    lemma_snapshots_push_new(pre, gpair);
                    assert forall|id2: Uuid| id2 != aggregate_id implies snapshots_first(
                        self.entries@,
                        id2,
                    ) == snapshots_first(pre, id2) by {
                        lemma_snapshots_push(pre, gpair, id2);
                    }
                }
                Ok(())
            },
        }
    }
}

/// True if some entry of `entries` is registered under the type name `t`.
pub open spec fn snapshot_registry_has<D>(entries: Seq<(AggregateType, D)>, t: Seq<char>) -> bool {
    exists|i: int| 0 <= i < entries.len() && (#[trigger] entries[i]).0.0@ == t
}

/// The prototype of the first entry registered under `t`, or `None`.
pub open spec fn snapshot_registry_first<D>(
    entries: Seq<(AggregateType, D)>,
    t: Seq<char>,
) -> Option<D>
    decreases entries.len(),
{
    if entries.len() == 0 {
        None
    } else if entries[0].0.0@ == t {
        Some(entries[0].1)
    } else {
        snapshot_registry_first(entries.drop_first(), t)
    }
}

proof fn lemma_snapshot_registry_first_some<D>(entries: Seq<(AggregateType, D)>, t: Seq<char>)
    ensures
        snapshot_registry_first(entries, t) is Some <==> snapshot_registry_has(entries, t),
    decreases entries.len(),
{
    if entries.len() > 0 {
        lemma_snapshot_registry_first_some(entries.drop_first(), t);
        if snapshot_registry_has(entries, t) && entries[0].0.0@ != t {
            let i = choose|i: int| 0 <= i < entries.len() && (#[trigger] entries[i]).0.0@ == t;
            assert(entries.drop_first()[i - 1].0.0@ == t);
        }
        if snapshot_registry_has(entries.drop_first(), t) {
            let i = choose|i: int|
                0 <= i < entries.drop_first().len() && (#[trigger] entries.drop_first()[i]).0.0@
                    == t;
            assert(entries[i + 1].0.0@ == t);
        }
    }
}

/// Maps an aggregate type to the snapshot-state prototype new instances
/// are copied from.
pub struct SnapshotFactoryRegistry<D> {
    pub entries: Vec<(AggregateType, D)>,
}

impl<D: SnapshotDataClone> SnapshotFactoryRegistry<D> {
    /// An empty registry.
    pub fn new() -> (r: SnapshotFactoryRegistry<D>)
        ensures
            r.entries@ == Seq::<(AggregateType, D)>::empty(),
    {
        SnapshotFactoryRegistry { entries: Vec::new() }
    }

    /// Registers a snapshot-state prototype for an aggregate type.
    /// Registering an empty type name or the same type twice is a caller
    /// error, kept out by the precondition.
    pub fn register_snapshot_data(&mut self, aggregate_type: AggregateType, prototype: D)
        requires
            aggregate_type.0@.len() > 0,
            !snapshot_registry_has(old(self).entries@, aggregate_type.0@),
        ensures
            final(self).entries@ == old(self).entries@.push((aggregate_type, prototype)),
    {
        self.entries.push((aggregate_type, prototype));
    }

    /// Returns a copy of the prototype registered for `aggregate_type`,
    /// or an error if none is registered.
    pub fn create_snapshot_data(&self, aggregate_id: Uuid, aggregate_type: &AggregateType) -> (r:
        Result<D, String>)
        ensures
            r is Ok <==> snapshot_registry_has(self.entries@, aggregate_type.0@),
            r is Ok ==> snapshot_registry_first(self.entries@, aggregate_type.0@) is Some
                && r->Ok_0@ == snapshot_registry_first(self.entries@, aggregate_type.0@)->0@,
            r is Err ==> r->Err_0@ == "snapshot data not registered"@,
    {
        proof {
            lemma_snapshot_registry_first_some(self.entries@, aggregate_type.0@);
        }
        let n = self.entries.len();
        proof {
            assert(self.entries@.subrange(0, n as int) =~= self.entries@);
        }
        let mut i: usize = 0;
        while i < n
            invariant
                n == self.entries@.len(),
                i <= n,
                snapshot_registry_first(self.entries@, aggregate_type.0@)
                    == snapshot_registry_first(
                    self.entries@.subrange(i as int, n as int),
                    aggregate_type.0@,
                ),
                forall|j: int| 0 <= j < i ==> (#[trigger] self.entries@[j]).0.0@
                    != aggregate_type.0@,
            decreases n - i,
        {
            let entry = &self.entries[i];
            if crate::event::str_eq(entry.0.0.as_str(), aggregate_type.0.as_str()) {
                return Ok(entry.1.clone_data());
            }
            proof {
                assert(self.entries@.subrange(i as int, n as int).drop_first()
                    =~= self.entries@.subrange(i as int + 1, n as int));
            }
            i = i + 1;
        }
        proof {
            assert(self.entries@.subrange(n as int, n as int).len() == 0);
            lemma_snapshot_registry_first_some(self.entries@, aggregate_type.0@);
        }
        Err(String::from_str("snapshot data not registered"))
    }
}

} // verus!
