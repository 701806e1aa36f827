//! Matchers: pure, composable predicates over an event's type tokens.
//!
//! A matcher looks only at the pair (event type, aggregate type) and is
//! free of side effects, so it can be evaluated repeatedly and
//! concurrently.  Matchers compose by OR (`MatchAny`) and AND
//! (`MatchAll`).

use vstd::prelude::*;
use crate::uuid::Uuid;

verus! {

/// An opaque event-type token.
#[derive(Clone, Copy, Debug, PartialEq, Eq, Structural)]
pub struct EventType(pub Uuid);

/// An opaque aggregate-type token.
#[derive(Clone, Copy, Debug, PartialEq, Eq, Structural)]
pub struct AggregateType(pub Uuid);

/// Matches events whose type is among the listed ones.
pub struct MatchEvents {
    pub event_types: Vec<EventType>,
}

/// Matches events whose aggregate type is among the listed ones.
pub struct MatchAggregates {
    pub aggregate_types: Vec<AggregateType>,
}

/// Matches if any of the inner matchers matches (logical OR).
pub struct MatchAny {
    pub matchers: Vec<Matcher>,
}

/// Matches if every inner matcher matches (logical AND).
pub struct MatchAll {
    pub matchers: Vec<Matcher>,
}

/// A composable matcher.
pub enum Matcher {
    Events(MatchEvents),
    Aggregates(MatchAggregates),
    Any(MatchAny),
    All(MatchAll),
}

/// What a matcher means: whether it accepts the token pair `(et, at)`.
pub open spec fn spec_matches(m: Matcher, et: EventType, at: AggregateType) -> bool
    decreases m,
{
    match m {
        Matcher::Events(me) => exists|i: int|
            0 <= i < me.event_types@.len() && #[trigger] me.event_types@[i] == et,
        Matcher::Aggregates(ma) => exists|i: int|
            0 <= i < ma.aggregate_types@.len() && #[trigger] ma.aggregate_types@[i] == at,
        Matcher::Any(ma) => exists|i: int|
            0 <= i < ma.matchers@.len() && spec_matches(#[trigger] ma.matchers@[i], et, at),
        Matcher::All(ma) => forall|i: int|
            0 <= i < ma.matchers@.len() ==> spec_matches(#[trigger] ma.matchers@[i], et, at),
    }
}

impl Matcher {
    /// Decides whether this matcher accepts the token pair.
    pub fn matches_tokens(&self, et: &EventType, at: &AggregateType) -> (r: bool)
        ensures
            r == spec_matches(*self, *et, *at),
        decreases *self,
    {
        match self {
            Matcher::Events(me) => {
                let r = me.matches_tokens(et);
                proof {
                    assert(self->Events_0 == *me);
                }
                r
            },
            Matcher::Aggregates(ma) => {
                let r = ma.matches_tokens(at);
                proof {
                    assert(self->Aggregates_0 == *ma);
                }
                r
            },
            Matcher::Any(ma) => {
                proof {
                    assert(self->Any_0 == *ma);
                }
                let n = ma.matchers.len();
                let mut i: usize = 0;
                while i < n
                    invariant
                        n == ma.matchers@.len(),
                        i <= n,
                        *self is Any && self->Any_0 == *ma,
                        forall|j: int|
                            0 <= j < i ==> !spec_matches(#[trigger] ma.matchers@[j], *et, *at),
                    decreases n - i,
                {
                    proof {
                        assert(decreases_to!(*self => self->Any_0.matchers@[i as int]));
                    }
                    if ma.matchers[i].matches_tokens(et, at) {
                        return true;
                    }
                    i = i + 1;
                }
                false
            },
            Matcher::All(ma) => {
                proof {
                    assert(self->All_0 == *ma);
                }
                let n = ma.matchers.len();
                let mut i: usize = 0;
                while i < n
                    invariant
                        n == ma.matchers@.len(),
                        i <= n,
                        *self is All && self->All_0 == *ma,
                        forall|j: int|
                            0 <= j < i ==> spec_matches(#[trigger] ma.matchers@[j], *et, *at),
                    decreases n - i,
                {
                    proof {
                        assert(decreases_to!(*self => self->All_0.matchers@[i as int]));
                    }
                    if !ma.matchers[i].matches_tokens(et, at) {
                        return false;
                    }
                    i = i + 1;
                }
                true
            },
        }
    }

    /// Decides whether this matcher accepts the event.
    pub fn matches(&self, event: &TestEvent) -> (r: bool)
        ensures
            r == spec_matches(*self, event.event_type, event.aggregate_type),
    {
        self.matches_tokens(&event.event_type, &event.aggregate_type)
    }
}

impl MatchEvents {
    /// A matcher over the listed event types.
    pub fn new(event_types: Vec<EventType>) -> (m: MatchEvents)
        ensures
            m.event_types == event_types,
    {
        MatchEvents { event_types }
    }

    /// True if `et` is among the listed event types.
    pub fn matches_tokens(&self, et: &EventType) -> (r: bool)
        ensures
            r == (exists|i: int|
                0 <= i < self.event_types@.len() && #[trigger] self.event_types@[i] == *et),
    {
        let n = self.event_types.len();
        let mut i: usize = 0;
        while i < n
            invariant
                n == self.event_types@.len(),
                i <= n,
                forall|j: int| 0 <= j < i ==> #[trigger] self.event_types@[j] != *et,
            decreases n - i,
        {
            if self.event_types[i] == *et {
                return true;
            }
            i = i + 1;
        }
        false
    }

    /// Decides whether this matcher accepts the event.
    pub fn matches(&self, event: &TestEvent) -> (r: bool)
        ensures
            r == (exists|i: int|
                0 <= i < self.event_types@.len() && #[trigger] self.event_types@[i]
                    == event.event_type),
    {
        self.matches_tokens(&event.event_type)
    }
}

impl MatchAggregates {
    /// A matcher over the listed aggregate types.
    pub fn new(aggregate_types: Vec<AggregateType>) -> (m: MatchAggregates)
        ensures
            m.aggregate_types == aggregate_types,
    {
        MatchAggregates { aggregate_types }
    }

    /// True if `at` is among the listed aggregate types.
    pub fn matches_tokens(&self, at: &AggregateType) -> (r: bool)
        ensures
            r == (exists|i: int|
                0 <= i < self.aggregate_types@.len() && #[trigger] self.aggregate_types@[i] == *at),
    {
        let n = self.aggregate_types.len();
        let mut i: usize = 0;
        while i < n
            invariant
                n == self.aggregate_types@.len(),
                i <= n,
                forall|j: int| 0 <= j < i ==> #[trigger] self.aggregate_types@[j] != *at,
            decreases n - i,
        {
            if self.aggregate_types[i] == *at {
                return true;
            }
            i = i + 1;
        }
        false
    }

    /// Decides whether this matcher accepts the event.
    pub fn matches(&self, event: &TestEvent) -> (r: bool)
        ensures
            r == (exists|i: int|
                0 <= i < self.aggregate_types@.len() && #[trigger] self.aggregate_types@[i]
                    == event.aggregate_type),
    {
        self.matches_tokens(&event.aggregate_type)
    }
}

impl MatchAny {
    /// A matcher that accepts what any of `matchers` accepts.
    pub fn new(matchers: Vec<Matcher>) -> (m: MatchAny)
        ensures
            m.matchers == matchers,
    {
        MatchAny { matchers }
    }

    /// Decides whether any inner matcher accepts the event; the disjunction
    /// short-circuits on the first match.
    pub fn matches(&self, event: &TestEvent) -> (r: bool)
        ensures
            r == (exists|i: int|
                0 <= i < self.matchers@.len() && spec_matches(#[trigger] self.matchers@[i],
                    event.event_type, event.aggregate_type)),
    {
        let n = self.matchers.len();
        let mut i: usize = 0;
        while i < n
            invariant
                n == self.matchers@.len(),
                i <= n,
                forall|j: int|
                    0 <= j < i ==> !spec_matches(#[trigger] self.matchers@[j], event.event_type,
                        event.aggregate_type),
            decreases n - i,
        {
            if self.matchers[i].matches_tokens(&event.event_type, &event.aggregate_type) {
                return true;
            }
            i = i + 1;
        }
        false
    }
}

impl MatchAll {
    /// A matcher that accepts what every one of `matchers` accepts.
    pub fn new(matchers: Vec<Matcher>) -> (m: MatchAll)
        ensures
            m.matchers == matchers,
    {
        MatchAll { matchers }
    }

    /// Decides whether every inner matcher accepts the event; the
    /// conjunction short-circuits on the first failure.
    pub fn matches(&self, event: &TestEvent) -> (r: bool)
        ensures
            r == (forall|i: int|
                0 <= i < self.matchers@.len() ==> spec_matches(#[trigger] self.matchers@[i],
                    event.event_type, event.aggregate_type)),
    {
        let n = self.matchers.len();
        let mut i: usize = 0;
        while i < n
            invariant
                n == self.matchers@.len(),
                i <= n,
                forall|j: int|
                    0 <= j < i ==> spec_matches(#[trigger] self.matchers@[j], event.event_type,
                        event.aggregate_type),
            decreases n - i,
        {
            if !self.matchers[i].matches_tokens(&event.event_type, &event.aggregate_type) {
                return false;
            }
            i = i + 1;
        }
        true
    }
}

/// A sample event carrying just the two tokens a matcher looks at.
#[derive(Clone, Copy, Debug, PartialEq, Eq, Structural)]
pub struct TestEvent {
    pub event_type: EventType,
    pub aggregate_type: AggregateType,
}

impl TestEvent {
    /// Builds an event with the given tokens.
    pub fn new(event_type: EventType, aggregate_type: AggregateType) -> (e: TestEvent)
        ensures
            e.event_type == event_type,
            e.aggregate_type == aggregate_type,
    {
        TestEvent { event_type, aggregate_type }
    }

    /// The event's type token.
    pub fn event_type(&self) -> (t: EventType)
        ensures
            t == self.event_type,
    {
        self.event_type
    }

    /// The event's aggregate-type token.
    pub fn aggregate_type(&self) -> (t: AggregateType)
        ensures
            t == self.aggregate_type,
    {
        self.aggregate_type
    }
}

/// A matcher over no sub-matchers at all, combined by AND, matches every
/// event: the conjunction is vacuous.
pub proof fn lemma_match_all_empty(m: MatchAll, et: EventType, at: AggregateType)
    requires
        m.matchers@.len() == 0,
    ensures
        spec_matches(Matcher::All(m), et, at),
{
}

/// A matcher over no sub-matchers at all, combined by OR, matches no event:
/// the disjunction is vacuous.
pub proof fn lemma_match_any_empty(m: MatchAny, et: EventType, at: AggregateType)
    requires
        m.matchers@.len() == 0,
    ensures
        !spec_matches(Matcher::Any(m), et, at),
{
}

/// A pair combined by AND matches exactly when both of its members match.
pub proof fn lemma_match_all_pair(a: Matcher, b: Matcher, m: MatchAll, et: EventType,
    at: AggregateType)
    requires
        m.matchers@ =~= seq![a, b],
    ensures
        spec_matches(Matcher::All(m), et, at) <==> (spec_matches(a, et, at) && spec_matches(b, et,
            at)),
{
    assert(Matcher::All(m)->All_0 == m);
    assert(m.matchers@[0] == a);
    assert(m.matchers@[1] == b);
    if spec_matches(a, et, at) && spec_matches(b, et, at) {
        assert forall|i: int| 0 <= i < m.matchers@.len() implies spec_matches(
            #[trigger] m.matchers@[i], et, at) by {
            if i == 0 {
                assert(spec_matches(m.matchers@[0], et, at));
            } else {
                assert(i == 1);
                assert(spec_matches(m.matchers@[1], et, at));
            }
        }
    }
    if spec_matches(Matcher::All(m), et, at) {
        assert(spec_matches(m.matchers@[0], et, at));
        assert(spec_matches(m.matchers@[1], et, at));
    }
}

/// A pair combined by OR matches exactly when at least one member matches.
pub proof fn lemma_match_any_pair(a: Matcher, b: Matcher, m: MatchAny, et: EventType,
    at: AggregateType)
    requires
        m.matchers@ =~= seq![a, b],
    ensures
        spec_matches(Matcher::Any(m), et, at) <==> (spec_matches(a, et, at) || spec_matches(b, et,
            at)),
{
    assert(Matcher::Any(m)->Any_0 == m);
    assert(m.matchers@[0] == a);
    assert(m.matchers@[1] == b);
    if spec_matches(a, et, at) {
        assert(spec_matches(m.matchers@[0], et, at));
    } else if spec_matches(b, et, at) {
        assert(spec_matches(m.matchers@[1], et, at));
    }
    if spec_matches(Matcher::Any(m), et, at) {
        let i = choose|i: int|
            0 <= i < m.matchers@.len() && spec_matches(#[trigger] m.matchers@[i], et, at);
        assert(i == 0 || i == 1);
    }
}

/// AND over a list means every member matches: the composite behaves as
/// boolean conjunction over its members.
pub proof fn lemma_match_all_is_and(m: MatchAll, et: EventType, at: AggregateType)
    ensures
        spec_matches(Matcher::All(m), et, at) <==> (forall|i: int|
            0 <= i < m.matchers@.len() ==> spec_matches(#[trigger] m.matchers@[i], et, at)),
{
    assert(Matcher::All(m)->All_0 == m);
    if spec_matches(Matcher::All(m), et, at) {
        assert(forall|i: int|
            0 <= i < m.matchers@.len() ==> spec_matches(#[trigger] m.matchers@[i], et, at));
    }
    if forall|i: int| 0 <= i < m.matchers@.len() ==> spec_matches(#[trigger] m.matchers@[i], et,
        at) {
        assert(spec_matches(Matcher::All(m), et, at));
    }
}

/// OR over a list means some member matches: the composite behaves as
/// boolean disjunction over its members.
pub proof fn lemma_match_any_is_or(m: MatchAny, et: EventType, at: AggregateType)
    ensures
        spec_matches(Matcher::Any(m), et, at) <==> (exists|i: int|
            0 <= i < m.matchers@.len() && spec_matches(#[trigger] m.matchers@[i], et, at)),
{
    assert(Matcher::Any(m)->Any_0 == m);
    if spec_matches(Matcher::Any(m), et, at) {
        assert(exists|i: int|
            0 <= i < m.matchers@.len() && spec_matches(#[trigger] m.matchers@[i], et, at));
    }
    if exists|i: int| 0 <= i < m.matchers@.len() && spec_matches(#[trigger] m.matchers@[i], et,
        at) {
        assert(spec_matches(Matcher::Any(m), et, at));
    }
}

} // verus!
