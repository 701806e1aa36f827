//! Comparison of events, with optional indulgence for fields that test
//! fixtures cannot pin down: the timestamp, the version, and the
//! bookkeeping `position` metadata entry.

use vstd::prelude::*;
use crate::event::{metadata_view, EventView, MyEvent};

verus! {

pub use crate::context::CloneableAny;

/// What a comparison overlooks.
#[derive(Clone, Copy, Debug, PartialEq, Eq, Structural)]
pub struct CompareConfig {
    pub ignore_timestamp: bool,
    pub ignore_version: bool,
    pub ignore_position: bool,
}

impl CompareConfig {
    /// The strict configuration: nothing is overlooked.
    pub fn new() -> (c: CompareConfig)
        ensures
            c == (CompareConfig {
                ignore_timestamp: false,
                ignore_version: false,
                ignore_position: false,
            }),
    {
        CompareConfig { ignore_timestamp: false, ignore_version: false, ignore_position: false }
    }
}

/// One adjustment to a comparison.
#[derive(Clone, Copy, Debug, PartialEq, Eq, Structural)]
pub enum CompareOption {
    IgnoreTimestamp,
    IgnoreVersion,
    IgnorePositionMetadata,
}

/// The configuration one option turns `c` into.
pub open spec fn apply_option(c: CompareConfig, o: CompareOption) -> CompareConfig {
    match o {
        CompareOption::IgnoreTimestamp => CompareConfig { ignore_timestamp: true, ..c },
        CompareOption::IgnoreVersion => CompareConfig { ignore_version: true, ..c },
        CompareOption::IgnorePositionMetadata => CompareConfig { ignore_position: true, ..c },
    }
}

/// The configuration a list of options builds, starting strict.
pub open spec fn spec_config(options: Seq<CompareOption>) -> CompareConfig
    decreases options.len(),
{
    if options.len() == 0 {
        CompareConfig { ignore_timestamp: false, ignore_version: false, ignore_position: false }
    } else {
        apply_option(spec_config(options.drop_last()), options.last())
    }
}

/// The option that makes a comparison overlook timestamps.
pub fn ignore_timestamp() -> (o: CompareOption)
    ensures
        o == CompareOption::IgnoreTimestamp,
{
    CompareOption::IgnoreTimestamp
}

/// The option that makes a comparison overlook versions.
pub fn ignore_version() -> (o: CompareOption)
    ensures
        o == CompareOption::IgnoreVersion,
{
    CompareOption::IgnoreVersion
}

/// The option that makes a comparison overlook the `position` metadata
/// entry.
pub fn ignore_position_metadata() -> (o: CompareOption)
    ensures
        o == CompareOption::IgnorePositionMetadata,
{
    CompareOption::IgnorePositionMetadata
}

/// An inequality found between two events.
#[derive(Debug)]
pub struct CompareError {
    pub details: String,
}

impl CompareError {
    /// Renders the inequality as text.
    pub fn message(&self) -> (s: String)
        ensures
            s@ == "Compare error: "@ + self.details@,
    {
        let mut s = String::from_str("Compare error: ");
        s.append(self.details.as_str());
        s
    }

    /// Wraps a description of the inequality.
    pub fn new(msg: &str) -> (e: CompareError)
        ensures
            e.details@ == msg@,
    {
        CompareError { details: msg.to_owned() }
    }
}

/// The value under `key` in a metadata table, the last entry winning.
pub open spec fn md_get(m: Seq<(Seq<char>, Seq<char>)>, key: Seq<char>) -> Option<Seq<char>>
    decreases m.len(),
{
    if m.len() == 0 {
        None
    } else if m.last().0 == key {
        Some(m.last().1)
    } else {
        md_get(m.drop_last(), key)
    }
}

/// Two metadata tables agree when every key reads the same in both —
/// every key but `position`, when that one is overlooked.
pub open spec fn metadata_agree(
    m1: Seq<(Seq<char>, Seq<char>)>,
    m2: Seq<(Seq<char>, Seq<char>)>,
    ignore_position: bool,
) -> bool {
    forall|key: Seq<char>|
        !(ignore_position && key == "position"@) ==> #[trigger] md_get(m1, key) == md_get(m2, key)
}

/// The description of the first mismatch the comparison finds, in check
/// order; meaningful when the events do not agree.
pub open spec fn compare_failure_text(e1: EventView, e2: EventView, c: CompareConfig) -> Seq<
    char,
> {
    if e1.event_type != e2.event_type {
        "Event type mismatch"@
    } else if e1.data != e2.data {
        "Event data mismatch"@
    } else if !c.ignore_timestamp && e1.timestamp != e2.timestamp {
        "Timestamp mismatch"@
    } else if e1.aggregate_type != e2.aggregate_type {
        "Aggregate type mismatch"@
    } else if e1.aggregate_id != e2.aggregate_id {
        "Aggregate ID mismatch"@
    } else if !c.ignore_version && e1.version != e2.version {
        "Version mismatch"@
    } else {
        "Metadata mismatch"@
    }
}

/// Two events agree under a configuration: every field the configuration
/// does not overlook is equal.
pub open spec fn events_agree(e1: EventView, e2: EventView, c: CompareConfig) -> bool {
    &&& e1.event_type == e2.event_type
    &&& e1.data == e2.data
    &&& (c.ignore_timestamp || e1.timestamp == e2.timestamp)
    &&& e1.aggregate_type == e2.aggregate_type
    &&& e1.aggregate_id == e2.aggregate_id
    &&& (c.ignore_version || e1.version == e2.version)
    &&& metadata_agree(e1.metadata, e2.metadata, c.ignore_position)
}

proof fn lemma_md_get_some_key(m: Seq<(Seq<char>, Seq<char>)>, key: Seq<char>)
    requires
        md_get(m, key) is Some,
    ensures
        exists|i: int| 0 <= i < m.len() && (#[trigger] m[i]).0 == key,
    decreases m.len(),
{
    if m.len() > 0 {
        if m.last().0 == key {
            assert(m[m.len() - 1].0 == key);
        } else {
            lemma_md_get_some_key(m.drop_last(), key);
            let i = choose|i: int|
                0 <= i < m.drop_last().len() && (#[trigger] m.drop_last()[i]).0 == key;
            assert(m[i].0 == key);
        }
    }
}

/// Looks a key up in a metadata table, the last entry winning.
fn metadata_lookup(m: &Vec<(String, String)>, key: &str) -> (r: Option<String>)
    ensures
        r is Some <==> md_get(metadata_view(m@), key@) is Some,
        r is Some ==> Some(r->0@) == md_get(metadata_view(m@), key@),
{
    let ghost mv = metadata_view(m@);
    let n = m.len();
    proof {
        assert(mv.subrange(0, n as int) =~= mv);
    }
    let mut i: usize = n;
    while i > 0
        invariant
            n == m@.len(),
            mv == metadata_view(m@),
            mv.len() == n,
            i <= n,
            md_get(mv, key@) == md_get(mv.subrange(0, i as int), key@),
        decreases i,
    {
        proof {
            assert(mv.subrange(0, i as int).last() == mv[i - 1]);
            assert(mv.subrange(0, i as int).drop_last() =~= mv.subrange(0, i as int - 1));
        }
        let entry = &m[i - 1];
        if crate::event::str_eq(entry.0.as_str(), key) {
            return Some(entry.1.clone());
        }
        i = i - 1;
    }
    proof {
        assert(mv.subrange(0, 0).len() == 0);
    }
    None
}

/// Compares two Option-of-string lookups for equality of contents.
fn lookup_eq(a: &Option<String>, b: &Option<String>) -> (r: bool)
    ensures
        r == (match (a, b) {
            (Some(x), Some(y)) => x@ == y@,
            (None, None) => true,
            _ => false,
        }),
{
    match (a, b) {
        (Some(x), Some(y)) => crate::event::str_eq(x.as_str(), y.as_str()),
        (None, None) => true,
        _ => false,
    }
}

/// Decides whether two metadata tables agree, overlooking `position`
/// when asked to.
pub fn compare_metadata(
    m1: &Vec<(String, String)>,
    m2: &Vec<(String, String)>,
    ignore_position: bool,
) -> (r: bool)
    ensures
        r == metadata_agree(metadata_view(m1@), metadata_view(m2@), ignore_position),
{
    let ghost v1 = metadata_view(m1@);
    let ghost v2 = metadata_view(m2@);
    let n1 = m1.len();
    let mut i: usize = 0;
    while i < n1
        invariant
            n1 == m1@.len(),
            v1 == metadata_view(m1@),
            v2 == metadata_view(m2@),
            i <= n1,
            forall|j: int|
                0 <= j < i && !(ignore_position && (#[trigger] v1[j]).0 == "position"@) ==> md_get(
                    v1,
                    v1[j].0,
                ) == md_get(v2, v1[j].0),
        decreases n1 - i,
    {
        let key = &m1[i].0;
        proof {
            assert(v1[i as int].0 == key@);
        }
        let skip = ignore_position && crate::event::str_eq(key.as_str(), "position");
        if !skip {
            let a = metadata_lookup(m1, key.as_str());
            let b = metadata_lookup(m2, key.as_str());
            if !lookup_eq(&a, &b) {
                proof {
                    assert(md_get(v1, key@) != md_get(v2, key@));
                }
                return false;
            }
        }
        i = i + 1;
    }
    let n2 = m2.len();
    let mut k: usize = 0;
    while k < n2
        invariant
            n2 == m2@.len(),
            v1 == metadata_view(m1@),
            v2 == metadata_view(m2@),
            k <= n2,
            forall|j: int|
                0 <= j < m1@.len() && !(ignore_position && (#[trigger] v1[j]).0 == "position"@)
                    ==> md_get(v1, v1[j].0) == md_get(v2, v1[j].0),
            forall|j: int|
                0 <= j < k && !(ignore_position && (#[trigger] v2[j]).0 == "position"@) ==> md_get(
                    v1,
                    v2[j].0,
                ) == md_get(v2, v2[j].0),
        decreases n2 - k,
    {
        let key = &m2[k].0;
        proof {
            assert(v2[k as int].0 == key@);
        }
        let skip = ignore_position && crate::event::str_eq(key.as_str(), "position");
        if !skip {
            let a = metadata_lookup(m1, key.as_str());
            let b = metadata_lookup(m2, key.as_str());
            if !lookup_eq(&a, &b) {
                proof {
                    assert(md_get(v1, key@) != md_get(v2, key@));
                }
                return false;
            }
        }
        k = k + 1;
    }
    proof {
        assert forall|key: Seq<char>| !(ignore_position && key == "position"@) implies #[trigger]
        md_get(v1, key) == md_get(v2, key) by {
            if md_get(v1, key) is Some {
                lemma_md_get_some_key(v1, key);
                let j = choose|j: int| 0 <= j < v1.len() && (#[trigger] v1[j]).0 == key;
                assert(md_get(v1, v1[j].0) == md_get(v2, v1[j].0));
            } else if md_get(v2, key) is Some {
                lemma_md_get_some_key(v2, key);
                let j = choose|j: int| 0 <= j < v2.len() && (#[trigger] v2[j]).0 == key;
                assert(md_get(v1, v2[j].0) == md_get(v2, v2[j].0));
            }
        }
    }
    true
}

/// Compares two events under the given options; the first field found
/// unequal is named in the error.
pub fn compare_events(e1: &MyEvent, e2: &MyEvent, options: &Vec<CompareOption>) -> (r: Result<
    (),
    CompareError,
>)
    ensures
        r is Ok <==> events_agree(e1@, e2@, spec_config(options@)),
        r is Err ==> r->Err_0.details@ == compare_failure_text(e1@, e2@, spec_config(options@)),
{
    let mut config = CompareConfig::new();
    let n = options.len();
    proof {
        assert(options@.subrange(0, 0).len() == 0);
    }
    let mut i: usize = 0;
    while i < n
        invariant
            n == options@.len(),
            i <= n,
            config == spec_config(options@.subrange(0, i as int)),
        decreases n - i,
    {
        proof {
            assert(options@.subrange(0, i as int + 1).drop_last() =~= options@.subrange(
                0,
                i as int,
            ));
            assert(options@.subrange(0, i as int + 1).last() == options@[i as int]);
        }
        match options[i] {
            CompareOption::IgnoreTimestamp => {
                config.ignore_timestamp = true;
            },
            CompareOption::IgnoreVersion => {
                config.ignore_version = true;
            },
            CompareOption::IgnorePositionMetadata => {
                config.ignore_position = true;
            },
        }
        i = i + 1;
    }
    proof {
        assert(options@.subrange(0, n as int) =~= options@);
    }
    if !crate::event::str_eq(e1.event_type.as_str(), e2.event_type.as_str()) {
        return Err(CompareError::new("Event type mismatch"));
    }
    if !bytes_eq(&e1.data.bytes, &e2.data.bytes) {
        return Err(CompareError::new("Event data mismatch"));
    }
    if !config.ignore_timestamp && e1.timestamp != e2.timestamp {
        return Err(CompareError::new("Timestamp mismatch"));
    }
    if !crate::event::str_eq(e1.aggregate_type.as_str(), e2.aggregate_type.as_str()) {
        return Err(CompareError::new("Aggregate type mismatch"));
    }
    if e1.aggregate_id != e2.aggregate_id {
        return Err(CompareError::new("Aggregate ID mismatch"));
    }
    if !config.ignore_version && e1.version != e2.version {
        return Err(CompareError::new("Version mismatch"));
    }
    if !compare_metadata(&e1.metadata, &e2.metadata, config.ignore_position) {
        return Err(CompareError::new("Metadata mismatch"));
    }
    Ok(())
}

/// Compares two byte strings for equality.
fn bytes_eq(a: &Vec<u8>, b: &Vec<u8>) -> (r: bool)
    ensures
        r == (a@ == b@),
{
    if a.len() != b.len() {
        return false;
    }
    let n = a.len();
    let mut i: usize = 0;
    while i < n
        invariant
            n == a@.len(),
            n == b@.len(),
            i <= n,
            forall|j: int| 0 <= j < i ==> a@[j] == b@[j],
        decreases n - i,
    {
        if a[i] != b[i] {
            return false;
        }
        i = i + 1;
    }
    proof {
        assert(a@ =~= b@);
    }
    true
}

/// Compares two slices of events pairwise under the given options.
pub fn compare_event_slices(
    evts1: &Vec<MyEvent>,
    evts2: &Vec<MyEvent>,
    options: &Vec<CompareOption>,
) -> (r: bool)
    ensures
        r == (evts1@.len() == evts2@.len() && forall|i: int|
            0 <= i < evts1@.len() ==> events_agree(
                (#[trigger] evts1@[i])@,
                evts2@[i]@,
                spec_config(options@),
            )),
{
    if evts1.len() != evts2.len() {
        return false;
    }
    let n = evts1.len();
    let mut i: usize = 0;
    while i < n
        invariant
            n == evts1@.len(),
            n == evts2@.len(),
            i <= n,
            forall|j: int|
                0 <= j < i ==> events_agree(
                    (#[trigger] evts1@[j])@,
                    evts2@[j]@,
                    spec_config(options@),
                ),
        decreases n - i,
    {
        if compare_events(&evts1[i], &evts2[i], options).is_err() {
            return false;
        }
        i = i + 1;
    }
    true
}

} // verus!
