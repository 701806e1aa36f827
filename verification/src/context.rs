//! Request-scoped context: a key→value map carried alongside commands
//! and events, and the registry of the transforms that carry it across a
//! process boundary.

use vstd::prelude::*;

verus! {

/// A value a context can hold: an integer or a string.
#[derive(Debug)]
pub enum CloneableAny {
    I32(i32),
    Str(String),
}

/// A plain value that can enter a context.
pub trait IntoCloneable: Sized {
    /// The context value this value becomes.
    spec fn spec_cloneable(self) -> CloneableAny;

    fn into_cloneable(self) -> (r: CloneableAny)
        ensures
            r == self.spec_cloneable(),
    ;
}

impl IntoCloneable for i32 {
    open spec fn spec_cloneable(self) -> CloneableAny {
        CloneableAny::I32(self)
    }

    fn into_cloneable(self) -> (r: CloneableAny)
        ensures
            r == self.spec_cloneable(),
    {
        CloneableAny::I32(self)
    }
}

impl IntoCloneable for String {
    open spec fn spec_cloneable(self) -> CloneableAny {
        CloneableAny::Str(self)
    }

    fn into_cloneable(self) -> (r: CloneableAny)
        ensures
            r == self.spec_cloneable(),
    {
        CloneableAny::Str(self)
    }
}

impl CloneableAny {
    /// Wraps a plain value.
    pub fn new<T: IntoCloneable>(value: T) -> (r: CloneableAny)
        ensures
            r == value.spec_cloneable(),
    {
        value.into_cloneable()
    }

    /// Copies the value.
    pub fn duplicate(&self) -> (r: CloneableAny)
        ensures
            r == *self,
    {
        match self {
            CloneableAny::I32(v) => CloneableAny::I32(*v),
            CloneableAny::Str(s) => CloneableAny::Str(s.clone()),
        }
    }

    /// The integer held, if one is.
    pub fn as_i32(&self) -> (r: Option<i32>)
        ensures
            r is Some <==> self is I32,
            r is Some ==> r->0 == self->I32_0,
    {
        match self {
            CloneableAny::I32(v) => Some(*v),
            CloneableAny::Str(_) => None,
        }
    }
}

/// The last value inserted under `key`, or `None`.
pub open spec fn context_get(entries: Seq<(String, CloneableAny)>, key: Seq<char>) -> Option<
    CloneableAny,
>
    decreases entries.len(),
{
    if entries.len() == 0 {
        None
    } else if entries.last().0@ == key {
        Some(entries.last().1)
    } else {
        context_get(entries.drop_last(), key)
    }
}

/// A request-scoped key→value map; a later insert under the same key
/// shadows the earlier one.
#[derive(Debug)]
pub struct Context {
    pub entries: Vec<(String, CloneableAny)>,
}

impl Context {
    /// An empty context.
    pub fn new() -> (c: Context)
        ensures
            c.entries@ == Seq::<(String, CloneableAny)>::empty(),
    {
        Context { entries: Vec::new() }
    }

    /// Inserts a value under a key, shadowing any earlier value.
    pub fn insert(&mut self, key: String, value: CloneableAny)
        ensures
            final(self).entries@ == old(self).entries@.push((key, value)),
    {
        self.entries.push((key, value));
    }

    /// The value last inserted under `key`, if any.
    pub fn get(&self, key: &str) -> (r: Option<CloneableAny>)
        ensures
            r == context_get(self.entries@, key@),
    {
        let n = self.entries.len();
        proof {
            assert(self.entries@.subrange(0, n as int) =~= self.entries@);
        }
        let mut i: usize = n;
        while i > 0
            invariant
                n == self.entries@.len(),
                i <= n,
                context_get(self.entries@, key@) == context_get(
                    self.entries@.subrange(0, i as int),
                    key@,
                ),
            decreases i,
        {
            proof {
                assert(self.entries@.subrange(0, i as int).last() == self.entries@[i - 1]);
                assert(self.entries@.subrange(0, i as int).drop_last() =~= self.entries@.subrange(
                    0,
                    i as int - 1,
                ));
            }
            let entry = &self.entries[i - 1];
            if crate::event::str_eq(entry.0.as_str(), key) {
                return Some(entry.1.duplicate());
            }
            i = i - 1;
        }
        proof {
            assert(self.entries@.subrange(0, 0).len() == 0);
        }
        None
    }
}

/// A transform that extracts the listed keys from a context when it is
/// carried across a process boundary.
#[derive(Debug)]
pub struct ContextMarshaler {
    pub keys: Vec<String>,
}

/// A transform that takes every carried value into the receiving
/// context.
#[derive(Debug)]
pub struct ContextUnmarshaler {

}

/// The registered context transforms, owned by the composition root.
pub struct ContextRegistry {
    pub marshalers: Vec<ContextMarshaler>,
    pub unmarshalers: Vec<ContextUnmarshaler>,
}

impl ContextRegistry {
    /// A registry with no transforms.
    pub fn new() -> (r: ContextRegistry)
        ensures
            r.marshalers@.len() == 0,
            r.unmarshalers@.len() == 0,
    {
        ContextRegistry { marshalers: Vec::new(), unmarshalers: Vec::new() }
    }
}

/// Registers a marshaling transform.
pub fn register_context_marshaler(registry: &mut ContextRegistry, f: ContextMarshaler)
    ensures
        final(registry).marshalers@ == old(registry).marshalers@.push(f),
        final(registry).unmarshalers == old(registry).unmarshalers,
{
    registry.marshalers.push(f);
}

/// Registers an unmarshaling transform.
pub fn register_context_unmarshaler(registry: &mut ContextRegistry, f: ContextUnmarshaler)
    ensures
        final(registry).unmarshalers@ == old(registry).unmarshalers@.push(f),
        final(registry).marshalers == old(registry).marshalers,
{
    registry.unmarshalers.push(f);
}

/// The pairs a marshaler's key list extracts from a context: each listed
/// key present in the context, with its value, in list order.
pub open spec fn extracted(keys: Seq<String>, entries: Seq<(String, CloneableAny)>) -> Seq<
    (String, CloneableAny),
>
    decreases keys.len(),
{
    if keys.len() == 0 {
        Seq::empty()
    } else {
        let rest = extracted(keys.drop_last(), entries);
        match context_get(entries, keys.last()@) {
            Some(v) => rest.push((keys.last(), v)),
            None => rest,
        }
    }
}

/// The pairs all registered marshalers together extract, in registration
/// order.
pub open spec fn marshaled(marshalers: Seq<ContextMarshaler>, entries: Seq<
    (String, CloneableAny),
>) -> Seq<(String, CloneableAny)>
    decreases marshalers.len(),
{
    if marshalers.len() == 0 {
        Seq::empty()
    } else {
        marshaled(marshalers.drop_last(), entries) + extracted(
            marshalers.last().keys@,
            entries,
        )
    }
}

/// Runs every registered marshaler over the context and collects what
/// they extract.
pub fn marshal_context(registry: &ContextRegistry, ctx: &Context) -> (r: Result<
    Vec<(String, CloneableAny)>,
    String,
>)
    ensures
        r is Ok,
        r->Ok_0@ == marshaled(registry.marshalers@, ctx.entries@),
{
    let mut out: Vec<(String, CloneableAny)> = Vec::new();
    let n = registry.marshalers.len();
    proof {
        assert(marshaled(registry.marshalers@.subrange(0, 0), ctx.entries@) =~= Seq::<(
            String,
            CloneableAny,
        )>::empty());
    }
    let mut i: usize = 0;
    while i < n
        invariant
            n == registry.marshalers@.len(),
            i <= n,
            out@ == marshaled(registry.marshalers@.subrange(0, i as int), ctx.entries@),
        decreases n - i,
    {
        let keys = &registry.marshalers[i].keys;
        let m = keys.len();
        proof {
            assert(extracted(keys@.subrange(0, 0), ctx.entries@) =~= Seq::<(
                String,
                CloneableAny,
            )>::empty());
            assert(out@ + Seq::<(String, CloneableAny)>::empty() =~= out@);
        }
        let ghost base = out@;
        let mut k: usize = 0;
        while k < m
            invariant
                m == keys@.len(),
                k <= m,
                out@ == base + extracted(keys@.subrange(0, k as int), ctx.entries@),
            decreases m - k,
        {
            proof {
                assert(keys@.subrange(0, k as int + 1).drop_last() =~= keys@.subrange(
                    0,
                    k as int,
                ));
                assert(keys@.subrange(0, k as int + 1).last() == keys@[k as int]);
            }
            match ctx.get(keys[k].as_str()) {
                Some(v) => {
                    out.push((keys[k].clone(), v));
                    proof {
                        assert(out@ =~= base + extracted(
                            keys@.subrange(0, k as int + 1),
                            ctx.entries@,
                        ));
                    }
                },
                None => {
                    proof {
                        assert(out@ =~= base + extracted(
                            keys@.subrange(0, k as int + 1),
                            ctx.entries@,
                        ));
                    }
                },
            }
            k = k + 1;
        }
        proof {
            assert(keys@.subrange(0, m as int) =~= keys@);
            assert(registry.marshalers@.subrange(0, i as int + 1).drop_last()
                =~= registry.marshalers@.subrange(0, i as int));
            assert(registry.marshalers@.subrange(0, i as int + 1).last()
                == registry.marshalers@[i as int]);
            assert(out@ =~= marshaled(
                registry.marshalers@.subrange(0, i as int + 1),
                ctx.entries@,
            ));
        }
        i = i + 1;
    }
    proof {
        assert(registry.marshalers@.subrange(0, n as int) =~= registry.marshalers@);
    }
    Ok(out)
}

/// `vals` appended to `base` once per registered unmarshaler.
pub open spec fn absorbed(
    base: Seq<(String, CloneableAny)>,
    vals: Seq<(String, CloneableAny)>,
    rounds: nat,
) -> Seq<(String, CloneableAny)>
    decreases rounds,
{
    if rounds == 0 {
        base
    } else {
        absorbed(base, vals, (rounds - 1) as nat) + vals
    }
}

/// Hands the carried values to every registered unmarshaler; each takes
/// all of them into the context, later values shadowing earlier ones.
pub fn unmarshal_context(
    registry: &ContextRegistry,
    ctx: &mut Context,
    vals: &Vec<(String, CloneableAny)>,
) -> (r: Result<(), String>)
    ensures
        r is Ok,
        final(ctx).entries@ == absorbed(
            old(ctx).entries@,
            vals@,
            registry.unmarshalers@.len() as nat,
        ),
{
    let rounds = registry.unmarshalers.len();
    let mut i: usize = 0;
    while i < rounds
        invariant
            rounds == registry.unmarshalers@.len(),
            i <= rounds,
            ctx.entries@ == absorbed(old(ctx).entries@, vals@, i as nat),
        decreases rounds - i,
    {
        let m = vals.len();
        let ghost base = ctx.entries@;
        let mut k: usize = 0;
        while k < m
            invariant
                m == vals@.len(),
                k <= m,
                ctx.entries@ == base + vals@.subrange(0, k as int),
            decreases m - k,
        {
            let pair = &vals[k];
            ctx.entries.push((pair.0.clone(), pair.1.duplicate()));
            proof {
                assert(vals@.subrange(0, k as int + 1) =~= vals@.subrange(0, k as int).push(
                    vals@[k as int],
                ));
                assert(ctx.entries@ =~= base + vals@.subrange(0, k as int + 1));
            }
            k = k + 1;
        }
        proof {
            assert(vals@.subrange(0, m as int) =~= vals@);
            assert(ctx.entries@ =~= absorbed(old(ctx).entries@, vals@, (i + 1) as nat));
        }
        i = i + 1;
    }
    proof {
        if rounds == 0 {
            assert(ctx.entries@ =~= absorbed(old(ctx).entries@, vals@, 0));
        }
    }
    Ok(())
}

/// Copies one context into another by marshaling it and unmarshaling the
/// result.
pub fn copy_context(registry: &ContextRegistry, from: &Context, to: &mut Context) -> (r: Result<
    (),
    String,
>)
    ensures
        r is Ok,
        final(to).entries@ == absorbed(
            old(to).entries@,
            marshaled(registry.marshalers@, from.entries@),
            registry.unmarshalers@.len() as nat,
        ),
{
    let vals = match marshal_context(registry, from) {
        Ok(vals) => vals,
        Err(e) => {
            proof {
                assert(false);
            }
            return Err(e);
        },
    };
    unmarshal_context(registry, to, &vals)
}

} // verus!
