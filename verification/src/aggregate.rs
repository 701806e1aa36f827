//! Aggregates: versioned entities rebuilt by replaying their events.
//!
//! An aggregate type says what a fresh instance looks like and how one
//! event changes the state; everything else — versions, uncommitted
//! events, snapshots — is handled generically by the aggregate store.

use vstd::prelude::*;
use crate::event::{EventView, MyEvent};
use crate::uuid::Uuid;

verus! {

/// A versioned entity.  `sinit` and `sapply` are the mathematical model:
/// what a fresh instance is, and what one event does to the state.
pub trait Aggregate: View + Sized {
    /// The model of a fresh instance for the aggregate `id`.
    spec fn sinit(id: Uuid) -> Self::V;

    /// The model of applying one event to the state.
    spec fn sapply(state: Self::V, event: EventView) -> Self::V;

    /// Builds a fresh instance for the aggregate `id`.
    fn init(id: Uuid) -> (a: Self)
        ensures
            a@ == Self::sinit(id),
    ;

    /// Applies one event to the in-memory state.
    fn apply(&mut self, event: &MyEvent)
        ensures
            final(self)@ == Self::sapply(old(self)@, event@),
    ;

    /// The name of the aggregate type.
    fn aggregate_type(&self) -> String;

    /// The identifier of this instance.
    fn entity_id(&self) -> Uuid;

    /// Reacts to a command; domain logic lives in the implementor.
    fn handle_command(&self);
}

/// The state the events replay to, starting from `start`.
pub open spec fn replay<A: Aggregate>(start: A::V, events: Seq<EventView>) -> A::V
    decreases events.len(),
{
    if events.len() == 0 {
        start
    } else {
        A::sapply(replay::<A>(start, events.drop_last()), events.last())
    }
}

/// Replay splits at any point: replaying a history is the same as
/// replaying a prefix and then the rest on top of the result.  This is
/// why a snapshot taken at version `k` plus the events after `k` yields
/// the same state as a full replay.
pub proof fn lemma_replay_split<A: Aggregate>(start: A::V, a: Seq<EventView>, b: Seq<EventView>)
    ensures
        replay::<A>(start, a + b) == replay::<A>(replay::<A>(start, a), b),
    decreases b.len(),
{
    if b.len() == 0 {
        assert(a + b =~= a);
    } else {
        assert((a + b).drop_last() =~= a + b.drop_last());
        assert((a + b).last() == b.last());
        lemma_replay_split::<A>(start, a, b.drop_last());
    }
}

/// Replaying all events onto a fresh instance yields the same state as
/// restoring the state replayed up to `k` and then replaying the events
/// after `k` on top of it.
pub proof fn lemma_snapshot_replay_equivalent<A: Aggregate>(id: Uuid, history: Seq<EventView>,
    k: int)
    requires
        0 <= k <= history.len(),
    ensures
        replay::<A>(A::sinit(id), history) == replay::<A>(
            replay::<A>(A::sinit(id), history.subrange(0, k)),
            history.subrange(k, history.len() as int),
        ),
{
    assert(history =~= history.subrange(0, k) + history.subrange(k, history.len() as int));
    lemma_replay_split::<A>(
        A::sinit(id),
        history.subrange(0, k),
        history.subrange(k, history.len() as int),
    );
}

/// An error raised by aggregate creation or command handling.
#[derive(Debug)]
pub struct AggregateError {
    pub err: String,
}

impl AggregateError {
    /// Renders the failure as text.
    pub fn message(&self) -> (s: String)
        ensures
            s@ == "aggregate error: "@ + self.err@,
    {
        let mut s = String::from_str("aggregate error: ");
        s.append(self.err.as_str());
        s
    }

    /// Wraps an error message.
    pub fn new(err: String) -> (e: AggregateError)
        ensures
            e.err == err,
    {
        AggregateError { err }
    }
}

/// The names of the aggregate types known to the composition root; an
/// aggregate can be created only under a registered name.
pub struct AggregateRegistry {
    pub aggregate_types: Vec<String>,
}

/// True if `name` is among the registered names.
pub open spec fn registry_has_name(names: Seq<String>, name: Seq<char>) -> bool {
    exists|i: int| 0 <= i < names.len() && (#[trigger] names[i])@ == name
}

impl AggregateRegistry {
    /// An empty registry.
    pub fn new() -> (r: AggregateRegistry)
        ensures
            r.aggregate_types@ == Seq::<String>::empty(),
    {
        AggregateRegistry { aggregate_types: Vec::new() }
    }
}

/// Registers an aggregate type name.  Registering the same name twice is
/// a caller error, kept out by the precondition.
pub fn register_aggregate(registry: &mut AggregateRegistry, aggregate_type: String)
    requires
        !registry_has_name(old(registry).aggregate_types@, aggregate_type@),
    ensures
        final(registry).aggregate_types@ == old(registry).aggregate_types@.push(aggregate_type),
{
    registry.aggregate_types.push(aggregate_type);
}

/// Creates a fresh aggregate of type `A` under a registered name, or
/// fails if the name is not registered.
pub fn create_aggregate<A: Aggregate>(
    registry: &AggregateRegistry,
    aggregate_type: &str,
    id: Uuid,
) -> (r: Result<A, AggregateError>)
    ensures
        r is Ok <==> registry_has_name(registry.aggregate_types@, aggregate_type@),
        r is Ok ==> r->Ok_0@ == A::sinit(id),
        r is Err ==> r->Err_0.err@ == "Aggregate not registered"@,
{
    let n = registry.aggregate_types.len();
    let mut i: usize = 0;
    while i < n
        invariant
            n == registry.aggregate_types@.len(),
            i <= n,
            forall|j: int| 0 <= j < i ==> (#[trigger] registry.aggregate_types@[j])@
                != aggregate_type@,
        decreases n - i,
    {
        if crate::event::str_eq(registry.aggregate_types[i].as_str(), aggregate_type) {
            return Ok(A::init(id));
        }
        i = i + 1;
    }
    Err(AggregateError { err: String::from_str("Aggregate not registered") })
}

/// An example aggregate: it remembers which event types it has seen.
#[derive(Debug)]
pub struct MyAggregate {
    pub id: Uuid,
    pub applied: Vec<String>,
}

/// The mathematical model of the example aggregate.
pub struct MyAggregateView {
    pub id: Uuid,
    pub applied: Seq<Seq<char>>,
}

impl View for MyAggregate {
    type V = MyAggregateView;

    open spec fn view(&self) -> MyAggregateView {
        MyAggregateView {
            id: self.id,
            applied: self.applied@.map_values(|s: String| s@),
        }
    }
}

impl MyAggregate {
    /// A fresh instance that has seen no events.
    pub fn new(id: Uuid) -> (a: MyAggregate)
        ensures
            a@ == MyAggregate::sinit(id),
    {
        proof {
            assert(Seq::<String>::empty().map_values(|s: String| s@) =~= Seq::<Seq<char>>::empty());
        }
        MyAggregate { id, applied: Vec::new() }
    }
}

impl Aggregate for MyAggregate {
    open spec fn sinit(id: Uuid) -> MyAggregateView {
        MyAggregateView { id, applied: Seq::empty() }
    }

    open spec fn sapply(state: MyAggregateView, event: EventView) -> MyAggregateView {
        MyAggregateView { id: state.id, applied: state.applied.push(event.event_type) }
    }

    fn init(id: Uuid) -> (a: Self)
        ensures
            a@ == Self::sinit(id),
    {
        MyAggregate::new(id)
    }

    fn apply(&mut self, event: &MyEvent)
        ensures
            final(self)@ == Self::sapply(old(self)@, event@),
    {
        self.applied.push(event.event_type());
        proof {
            assert(self.applied@.map_values(|s: String| s@) =~= old(self).applied@.map_values(
                |s: String| s@,
            ).push(event@.event_type));
        }
    }

    fn aggregate_type(&self) -> (t: String)
        ensures
            t@ == "MyAggregate"@,
    {
        String::from_str("MyAggregate")
    }

    fn entity_id(&self) -> (id: Uuid)
        ensures
            id == self@.id,
    {
        self.id
    }

    /// The example aggregate reacts to no commands.
    fn handle_command(&self) {
    }
}

impl crate::snapshot::SnapshotData for MyAggregate {

}

impl crate::snapshot::SnapshotDataClone for MyAggregate {
    fn clone_data(&self) -> (c: Self)
        ensures
            c@ == self@,
    {
        let mut applied: Vec<String> = Vec::new();
        let n = self.applied.len();
        let mut i: usize = 0;
        while i < n
            invariant
                n == self.applied@.len(),
                i <= n,
                applied@ == self.applied@.subrange(0, i as int),
            decreases n - i,
        {
            applied.push(self.applied[i].clone());
            proof {
                assert(applied@ =~= self.applied@.subrange(0, i as int + 1));
            }
            i = i + 1;
        }
        proof {
            assert(applied@ =~= self.applied@);
        }
        MyAggregate { id: self.id, applied }
    }
}

} // verus!
