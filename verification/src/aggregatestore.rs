//! The aggregate store: loads and saves whole aggregates, hiding replay.
//!
//! `load` rebuilds an aggregate from its stored history — starting from a
//! snapshot when one exists, from a fresh instance when none does — and
//! always yields the state a full replay would: a snapshot is a cache,
//! never authoritative.  `save` forwards the uncommitted events to the
//! event store's atomic check-and-append and leaves the aggregate
//! untouched when the store reports a conflict.

use vstd::prelude::*;
use crate::aggregate::{replay, Aggregate};
use crate::event::{duplicate_events, MyEvent};
use crate::eventstore::{
    batch_valid, events_from_version, events_view, save_accepted, EventStoreError,
    EventStoreErrorKind, MemoryEventStore,
};
use crate::snapshot::{AggregateType, MemorySnapshotStore, Snapshot, SnapshotDataClone};
use crate::uuid::Uuid;

verus! {

/// An aggregate under the store's ownership during one load-mutate-save
/// cycle: the state, the last committed version, and the events recorded
/// since.
pub struct AggregateRoot<A> {
    pub id: Uuid,
    pub version: u64,
    pub state: A,
    pub uncommitted: Vec<MyEvent>,
}

impl<A: Aggregate> AggregateRoot<A> {
    /// Records one new event: applies it to the in-memory state and
    /// queues it for the next save.
    pub fn record(&mut self, event: MyEvent)
        ensures
            final(self).id == old(self).id,
            final(self).version == old(self).version,
            final(self).state@ == A::sapply(old(self).state@, event@),
            final(self).uncommitted@.len() == old(self).uncommitted@.len() + 1,
            final(self).uncommitted@.last()@ == event@,
            forall|k: int|
                0 <= k < old(self).uncommitted@.len() ==> (#[trigger] final(self).uncommitted@[k])
                    == old(self).uncommitted@[k],
    {
        self.state.apply(&event);
        self.uncommitted.push(event);
    }
}

/// Composes the event store with a snapshot store to load and save whole
/// aggregates of one type.
pub struct AggregateStore<A> {
    pub events: MemoryEventStore,
    pub snapshots: MemorySnapshotStore<A>,
}

impl<A: Aggregate + SnapshotDataClone> AggregateStore<A> {
    /// The snapshot cached for `id`, if any, models the state the events
    /// up to its version replay to.
    pub open spec fn snapshot_consistent(&self, id: Uuid) -> bool {
        match self.snapshots.stored(id) {
            Some(s) => s@.version <= self.events.history(id).len() && s@.state == replay::<A>(
                A::sinit(id),
                events_view(self.events.history(id)).subrange(0, s@.version as int),
            ),
            None => true,
        }
    }

    /// Well-formedness: both stores are well formed and every cached
    /// snapshot agrees with the stored history.
    pub open spec fn wf(&self) -> bool {
        &&& self.events.wf()
        &&& self.snapshots.wf()
        &&& forall|id: Uuid| #[trigger] self.snapshot_consistent(id)
    }

    /// An empty store.
    pub fn new() -> (s: AggregateStore<A>)
        ensures
            s.wf(),
            s.events.streams@.len() == 0,
            s.snapshots.entries@.len() == 0,
    {
        let s = AggregateStore::<A> {
            events: MemoryEventStore::new(),
            snapshots: MemorySnapshotStore::new(),
        };
        proof {
            assert forall|id: Uuid| #[trigger] s.snapshot_consistent(id) by {
                assert(crate::snapshot::snapshots_first(s.snapshots.entries@, id) is None);
            }
        }
        s
    }

    /// Loads the aggregate: from its snapshot plus the events after it
    /// when a snapshot exists, from a fresh instance plus the full
    /// history when none does.  Either way the result models a full
    /// replay.  Fails with `NotFound` when there is neither a snapshot
    /// nor any events.
    pub fn load(&self, aggregate_id: Uuid) -> (r: Result<AggregateRoot<A>, EventStoreError>)
        requires
            self.wf(),
        ensures
            r is Ok <==> self.snapshots.stored(aggregate_id) is Some || self.events.history(
                aggregate_id,
            ).len() > 0,
            r is Ok ==> r->Ok_0.id == aggregate_id,
            r is Ok ==> r->Ok_0.uncommitted@.len() == 0,
            r is Ok ==> r->Ok_0.version == self.events.history(aggregate_id).len(),
            r is Ok ==> r->Ok_0.state@ == replay::<A>(
                A::sinit(aggregate_id),
                events_view(self.events.history(aggregate_id)),
            ),
            r is Err ==> r->Err_0.kind == EventStoreErrorKind::NotFound,
    {
        let ghost hist = self.events.history(aggregate_id);
        let ghost hview = events_view(hist);
        let snap_result = self.snapshots.load_snapshot(aggregate_id);
        match snap_result {
            Ok(Some(snap)) => {
                if snap.version == u64::MAX {
                    // A version at the numeric ceiling cannot be extended;
                    // fall back to a full replay, which is always sound.
                    proof {
                        assert(self.snapshot_consistent(aggregate_id));
                        assert(snap@ == self.snapshots.stored(aggregate_id)->0@);
                        assert(self.events.history(aggregate_id).len() > 0);
                    }
                    self.load_by_full_replay(aggregate_id)
                } else {
                    let ghost v = snap.version as int;
                    proof {
                        assert(self.snapshot_consistent(aggregate_id));
                        assert(snap@ == self.snapshots.stored(aggregate_id)->0@);
                    }
                    let mut root = AggregateRoot::<A> {
                        id: aggregate_id,
                        version: snap.version,
                        state: snap.state,
                        uncommitted: Vec::new(),
                    };
                    proof {
                        assert(root.state@ == replay::<A>(
                            A::sinit(aggregate_id),
                            hview.subrange(0, v),
                        ));
                    }
                    match self.events.load_from(aggregate_id, snap.version + 1) {
                        Ok(evs) => {
                            proof {
                                crate::eventstore::lemma_load_from_is_suffix(
                                    self.events,
                                    aggregate_id,
                                    (snap.version + 1) as u64,
                                );
                                assert(events_view(evs@) == events_view(
                                    hist.subrange(v, hist.len() as int),
                                ));
                                assert(events_view(evs@).len() == evs@.len());
                                assert(events_view(hist.subrange(v, hist.len() as int)).len()
                                    == hist.len() - v);
                                crate::eventstore::lemma_has_iff_nonempty(
                                    self.events.streams@,
                                    aggregate_id,
                                );
                                lemma_history_len_bound(self.events, aggregate_id);
                            }
                            self.apply_all(&mut root, &evs, Ghost(v));
                            proof {
                                assert(hview.subrange(0, v + evs@.len()) =~= hview);
                            }
                            Ok(root)
                        },
                        Err(_) => {
                            // No events beyond the snapshot: its version is
                            // the whole history, so the state already models
                            // the full replay.
                            proof {
                                crate::eventstore::lemma_has_iff_nonempty(
                                    self.events.streams@,
                                    aggregate_id,
                                );
                                if crate::eventstore::streams_has(
                                    self.events.streams@,
                                    aggregate_id,
                                ) {
                                    if v < hist.len() {
                                        crate::eventstore::lemma_load_from_is_suffix(
                                            self.events,
                                            aggregate_id,
                                            (snap.version + 1) as u64,
                                        );
                                        assert(events_from_version(
                                            hist,
                                            (snap.version + 1) as u64,
                                        ).len() == hist.len() - v);
                                    }
                                } else {
                                    assert(hist.len() == 0);
                                }
                                assert(v == hist.len());
                                assert(hview.subrange(0, v) =~= hview);
                            }
                            Ok(root)
                        },
                    }
                }
            },
            Ok(None) => {
                match self.events.load(aggregate_id) {
                    Ok(evs) => {
                        let mut root = AggregateRoot::<A> {
                            id: aggregate_id,
                            version: 0,
                            state: A::init(aggregate_id),
                            uncommitted: Vec::new(),
                        };
                        proof {
                            crate::eventstore::lemma_has_iff_nonempty(
                                self.events.streams@,
                                aggregate_id,
                            );
                            assert(events_view(evs@).len() == evs@.len());
                            assert(events_view(hist).len() == hist.len());
                            assert(hist.subrange(0, hist.len() as int) =~= hist);
                            assert(hview.subrange(0, 0) =~= Seq::<crate::event::EventView>::empty());
                            assert(root.state@ == replay::<A>(
                                A::sinit(aggregate_id),
                                hview.subrange(0, 0),
                            ));
                            lemma_history_len_bound(self.events, aggregate_id);
                        }
                        self.apply_all(&mut root, &evs, Ghost(0));
                        proof {
                            assert(hview.subrange(0, evs@.len() as int) =~= hview);
                        }
                        Ok(root)
                    },
                    Err(e) => {
                        proof {
                            crate::eventstore::lemma_has_iff_nonempty(
                                self.events.streams@,
                                aggregate_id,
                            );
                        }
                        Err(e)
                    },
                }
            },
            Err(_) => {
                proof {
                    assert(false);
                }
                Err(EventStoreError {
                    kind: EventStoreErrorKind::NotFound,
                    err: None,
                    op: None,
                    aggregate_type: None,
                    aggregate_id: Some(aggregate_id),
                    aggregate_version: None,
                    events: Vec::new(),
                })
            },
        }
    }

    /// Rebuilds the aggregate from a fresh instance and the full history,
    /// ignoring any snapshot.
    fn load_by_full_replay(&self, aggregate_id: Uuid) -> (r: Result<
        AggregateRoot<A>,
        EventStoreError,
    >)
        requires
            self.wf(),
        ensures
            r is Ok <==> self.events.history(aggregate_id).len() > 0,
            r is Ok ==> r->Ok_0.id == aggregate_id,
            r is Ok ==> r->Ok_0.uncommitted@.len() == 0,
            r is Ok ==> r->Ok_0.version == self.events.history(aggregate_id).len(),
            r is Ok ==> r->Ok_0.state@ == replay::<A>(
                A::sinit(aggregate_id),
                events_view(self.events.history(aggregate_id)),
            ),
            r is Err ==> r->Err_0.kind == EventStoreErrorKind::NotFound,
    {
        let ghost hist = self.events.history(aggregate_id);
        let ghost hview = events_view(hist);
        match self.events.load(aggregate_id) {
            Ok(evs) => {
                let mut root = AggregateRoot::<A> {
                    id: aggregate_id,
                    version: 0,
                    state: A::init(aggregate_id),
                    uncommitted: Vec::new(),
                };
                proof {
                    crate::eventstore::lemma_has_iff_nonempty(self.events.streams@, aggregate_id);
                    assert(events_view(evs@).len() == evs@.len());
                    assert(events_view(hist).len() == hist.len());
                    assert(hist.subrange(0, hist.len() as int) =~= hist);
                    assert(hview.subrange(0, 0) =~= Seq::<crate::event::EventView>::empty());
                    lemma_history_len_bound(self.events, aggregate_id);
                }
                self.apply_all(&mut root, &evs, Ghost(0));
                proof {
                    assert(hview.subrange(0, evs@.len() as int) =~= hview);
                }
                Ok(root)
            },
            Err(e) => {
                proof {
                    crate::eventstore::lemma_has_iff_nonempty(self.events.streams@, aggregate_id);
                }
                Err(e)
            },
        }
    }

    /// Applies `evs` — the history from position `from` on — to the root,
    /// advancing its version by one per event.
    fn apply_all(&self, root: &mut AggregateRoot<A>, evs: &Vec<MyEvent>, Ghost(from): Ghost<int>)
        requires
            0 <= from,
            from + evs@.len() <= u64::MAX,
            from + evs@.len() == self.events.history(old(root).id).len(),
            events_view(evs@) == events_view(
                self.events.history(old(root).id).subrange(
                    from,
                    self.events.history(old(root).id).len() as int,
                ),
            ),
            old(root).version == from,
            old(root).state@ == replay::<A>(
                A::sinit(old(root).id),
                events_view(self.events.history(old(root).id)).subrange(0, from),
            ),
        ensures
            final(root).id == old(root).id,
            final(root).uncommitted == old(root).uncommitted,
            final(root).version == from + evs@.len(),
            final(root).state@ == replay::<A>(
                A::sinit(old(root).id),
                events_view(self.events.history(old(root).id)).subrange(0, from + evs@.len()),
            ),
    {
        let ghost hist = self.events.history(old(root).id);
        let ghost hview = events_view(hist);
        let n = evs.len();
        let mut k: usize = 0;
        while k < n
            invariant
                n == evs@.len(),
                k <= n,
                0 <= from,
                from + n <= u64::MAX,
                from + n == hist.len(),
                hist == self.events.history(old(root).id),
                hview == events_view(hist),
                events_view(evs@) == events_view(hist.subrange(from, hist.len() as int)),
                root.id == old(root).id,
                root.uncommitted == old(root).uncommitted,
                root.version == from + k,
                root.state@ == replay::<A>(A::sinit(old(root).id), hview.subrange(0, from + k)),
            decreases n - k,
        {
            proof {
                assert(events_view(evs@)[k as int] == events_view(
                    hist.subrange(from, hist.len() as int),
                )[k as int]);
                assert(evs@[k as int]@ == hview[from + k]);
                assert(hview.subrange(0, from + k + 1).drop_last() =~= hview.subrange(
                    0,
                    from + k,
                ));
                assert(hview.subrange(0, from + k + 1).last() == hview[from + k]);
            }
            root.state.apply(&evs[k]);
            root.version = root.version + 1;
            k = k + 1;
        }
    }

    /// Saves the aggregate's uncommitted events: a no-op when there are
    /// none; otherwise the event store's atomic check-and-append decides.
    /// On success the version advances and the queue is cleared; on a
    /// conflict the aggregate is left exactly as it was, for the caller
    /// to reload and retry.
    pub fn save(&mut self, root: &mut AggregateRoot<A>) -> (r: Result<(), EventStoreError>)
        requires
            old(self).wf(),
        ensures
            final(self).wf(),
            old(root).uncommitted@.len() == 0 ==> r is Ok && *final(self) == *old(self)
                && *final(root) == *old(root),
            old(root).uncommitted@.len() > 0 ==> (r is Ok <==> save_accepted(
                old(self).events.streams@,
                old(root).uncommitted@,
                old(root).version as int,
            )),
            r is Ok && old(root).uncommitted@.len() > 0 ==> {
                &&& final(root).id == old(root).id
                &&& final(root).state == old(root).state
                &&& final(root).version == old(root).version + old(root).uncommitted@.len()
                &&& final(root).uncommitted@.len() == 0
                &&& events_view(final(self).events.history(old(root).uncommitted@[0].aggregate_id))
                    == events_view(old(self).events.history(old(root).uncommitted@[0].aggregate_id))
                    + events_view(old(root).uncommitted@)
                &&& forall|id2: Uuid|
                    id2 != old(root).uncommitted@[0].aggregate_id ==> final(self).events.history(
                        id2,
                    ) == old(self).events.history(id2)
                &&& final(self).snapshots == old(self).snapshots
            },
            r is Err ==> *final(self) == *old(self) && *final(root) == *old(root),
            r is Err && batch_valid(old(root).uncommitted@, old(root).version as int) ==> r
                ->Err_0.kind == EventStoreErrorKind::ConcurrencyConflict,
            r is Err && !batch_valid(old(root).uncommitted@, old(root).version as int) ==> r
                ->Err_0.kind == EventStoreErrorKind::InvalidInput,
    {
        if root.uncommitted.len() == 0 {
            return Ok(());
        }
        let ghost batch = root.uncommitted@;
        let ghost batch_id = root.uncommitted@[0].aggregate_id;
        let pending = duplicate_events(&root.uncommitted);
        let ghost copies = pending@;
        proof {
            lemma_batch_valid_by_views(copies, batch, root.version as int);
            assert(copies[0]@ == batch[0]@);
            assert(copies[0].aggregate_id == batch_id);
        }
        let result = self.events.save(pending, root.version);
        match result {
            Ok(()) => {
                proof {
                    assert(batch_valid(batch, root.version as int));
                    assert(batch[batch.len() - 1].version == root.version + batch.len());
                }
                let committed = root.uncommitted.len();
                root.version = root.version + (committed as u64);
                root.uncommitted.clear();
                proof {
                    assert(events_view(final(self).events.history(batch_id)) =~= events_view(
                        old(self).events.history(batch_id),
                    ) + events_view(batch)) by {
                        assert(self.events.history(batch_id) == old(self).events.history(batch_id)
                            + copies);
                        assert forall|k: int|
                            0 <= k < self.events.history(batch_id).len() implies (
                        #[trigger] events_view(self.events.history(batch_id))[k]) == (events_view(
                            old(self).events.history(batch_id),
                        ) + events_view(batch))[k] by {
                            let pre_len = old(self).events.history(batch_id).len();
                            if k >= pre_len {
                                assert(self.events.history(batch_id)[k] == copies[k - pre_len]);
                                assert(copies[k - pre_len]@ == batch[k - pre_len]@);
                            }
                        }
                    }
                    assert forall|id: Uuid| #[trigger] self.snapshot_consistent(id) by {
                        assert(old(self).snapshot_consistent(id));
                        if id == batch_id {
                            match self.snapshots.stored(id) {
                                Some(s) => {
                                    let pre_view = events_view(
                                        old(self).events.history(id),
                                    );
                                    assert(events_view(self.events.history(id)).subrange(
                                        0,
                                        s@.version as int,
                                    ) =~= pre_view.subrange(0, s@.version as int));
                                },
                                None => {},
                            }
                        } else {
                            assert(self.events.history(id) == old(self).events.history(id));
                        }
                    }
                }
                Ok(())
            },
            Err(e) => {
                proof {
                    assert(*final(self) == *old(self));
                }
                Err(e)
            },
        }
    }

    /// Caches the aggregate's present state as its snapshot, overwriting
    /// any prior one.  The caller must hand in a root whose state models
    /// the stored history up to its version, as `load` and `save` leave
    /// it.
    pub fn take_snapshot(&mut self, root: &AggregateRoot<A>, timestamp: u64) -> (r: Result<
        (),
        String,
    >)
        requires
            old(self).wf(),
            root.version <= old(self).events.history(root.id).len(),
            root.state@ == replay::<A>(
                A::sinit(root.id),
                events_view(old(self).events.history(root.id)).subrange(0, root.version as int),
            ),
        ensures
            r is Ok,
            final(self).wf(),
            final(self).events == old(self).events,
            final(self).snapshots.stored(root.id) is Some,
            final(self).snapshots.stored(root.id)->0@.version == root.version,
            final(self).snapshots.stored(root.id)->0@.state == root.state@,
            forall|id2: Uuid|
                id2 != root.id ==> final(self).snapshots.stored(id2) == old(self).snapshots.stored(
                    id2,
                ),
    {
        let snap = Snapshot {
            version: root.version,
            aggregate_type: AggregateType(root.state.aggregate_type()),
            timestamp,
            state: root.state.clone_data(),
        };
        let ghost gsnap = snap;
        let _ = self.snapshots.save_snapshot(root.id, snap);
        proof {
            assert(self.snapshots.stored(root.id) == Some(gsnap));
            assert forall|id: Uuid| #[trigger] self.snapshot_consistent(id) by {
                assert(old(self).snapshot_consistent(id));
                if id != root.id {
                    assert(self.snapshots.stored(id) == old(self).snapshots.stored(id));
                }
            }
        }
        Ok(())
    }
}

/// In a well-formed store a history's length fits a version number: the
/// last stored event carries it.
proof fn lemma_history_len_bound(store: MemoryEventStore, id: Uuid)
    requires
        store.wf(),
    ensures
        store.history(id).len() <= u64::MAX,
{
    crate::eventstore::lemma_history_versions(store, id);
    if store.history(id).len() > 0 {
        assert(store.history(id)[store.history(id).len() - 1].version == store.history(id).len());
    }
}

proof fn lemma_batch_valid_by_views(a: Seq<MyEvent>, b: Seq<MyEvent>, expected: int)
    requires
        a.len() == b.len(),
        forall|k: int| 0 <= k < a.len() ==> (#[trigger] a[k])@ == b[k]@,
    ensures
        batch_valid(a, expected) <==> batch_valid(b, expected),
{
    if a.len() > 0 {
        assert(a[0]@ == b[0]@);
        if batch_valid(a, expected) {
            assert forall|k: int| 0 <= k < b.len() implies (#[trigger] b[k]).aggregate_id
                == b[0].aggregate_id && b[k].version == expected + k + 1 by {
                assert(a[k]@ == b[k]@);
                assert(a[k].aggregate_id == a[0].aggregate_id);
                assert(a[k].version == expected + k + 1);
            }
            assert(batch_valid(b, expected));
        }
        if batch_valid(b, expected) {
            assert forall|k: int| 0 <= k < a.len() implies (#[trigger] a[k]).aggregate_id
                == a[0].aggregate_id && a[k].version == expected + k + 1 by {
                assert(a[k]@ == b[k]@);
                assert(b[k].aggregate_id == b[0].aggregate_id);
                assert(b[k].version == expected + k + 1);
            }
            assert(batch_valid(a, expected));
        }
    }
}

} // verus!
