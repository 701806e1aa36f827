//! Entity repositories: keyed read and write access to entities.

use vstd::prelude::*;
use crate::uuid::Uuid;

verus! {

/// An item identified by an id, as the repositories see it.
pub trait Entity {
    fn id(&self) -> Uuid;
}

/// Copying for entities: the copy equals the original.
pub trait EntityClone: Sized {
    fn clone_entity(&self) -> (c: Self)
        ensures
            c == *self,
    ;
}

impl Entity for crate::entity::MyEntity {
    fn id(&self) -> (r: Uuid)
        ensures
            r == self.id,
    {
        self.id
    }
}

impl EntityClone for crate::entity::MyEntity {
    fn clone_entity(&self) -> (c: Self)
        ensures
            c == *self,
    {
        *self
    }
}

/// Read access to a repository of entities.
pub trait ReadRepo<E>: Sized {
    fn find(&self, id: Uuid) -> Result<E, RepoError>;

    fn find_all(&self) -> Result<Vec<E>, RepoError>;

    fn close(&self) -> Result<(), RepoError>;
}

/// Write access to a repository of entities.
pub trait WriteRepo<E>: Sized {
    fn save(&mut self, entity: E) -> Result<(), RepoError>;

    fn remove(&mut self, id: Uuid) -> Result<(), RepoError>;
}

/// A repository that can both read and write.
pub trait ReadWriteRepo<E>: ReadRepo<E> + WriteRepo<E> {

}

/// A cursor over the entities of a repository.
pub trait Iter<E> {
    fn next(&mut self) -> bool;

    fn value(&self) -> Option<&E>;

    fn close(&mut self) -> Result<(), RepoError>;
}

/// The operation a repository error arose from.
#[derive(Clone, Copy, Debug, PartialEq, Eq, Structural)]
pub enum RepoOperation {
    Find,
    FindAll,
    FindQuery,
    Save,
    Remove,
    Clear,
}

/// A repository failure: the operation, an optional cause, and the
/// entity concerned.
#[derive(Debug)]
pub struct RepoError {
    pub err: Option<String>,
    pub op: RepoOperation,
    pub entity_id: Option<Uuid>,
}

impl RepoOperation {
    /// The operation's name, as a model.
    pub open spec fn name_view(&self) -> Seq<char> {
        match *self {
            RepoOperation::Find => "Find"@,
            RepoOperation::FindAll => "FindAll"@,
            RepoOperation::FindQuery => "FindQuery"@,
            RepoOperation::Save => "Save"@,
            RepoOperation::Remove => "Remove"@,
            RepoOperation::Clear => "Clear"@,
        }
    }

    /// The operation's name.
    pub fn name(&self) -> (s: String)
        ensures
            s@ == self.name_view(),
    {
        match self {
            RepoOperation::Find => String::from_str("Find"),
            RepoOperation::FindAll => String::from_str("FindAll"),
            RepoOperation::FindQuery => String::from_str("FindQuery"),
            RepoOperation::Save => String::from_str("Save"),
            RepoOperation::Remove => String::from_str("Remove"),
            RepoOperation::Clear => String::from_str("Clear"),
        }
    }
}

/// The textual form of a repository failure: the repository, the
/// operation, the cause, and the entity's id when one is named.
pub open spec fn repo_error_text(e: RepoError) -> Seq<char> {
    "repo: "@ + e.op.name_view() + ": "@ + (if e.err is Some {
        e.err->0@
    } else {
        "unknown error"@
    }) + (if e.entity_id is Some {
        " entity ID: "@ + crate::uuid::uuid_text(e.entity_id->0.value)
    } else {
        Seq::<char>::empty()
    })
}

impl RepoError {
    /// Renders the failure as text: the repository, the operation, the
    /// cause, and the entity concerned.
    pub fn message(&self) -> (s: String)
        ensures
            s@ == repo_error_text(*self),
    {
        let mut s = String::from_str("repo: ");
        let name = self.op.name();
        s.append(name.as_str());
        s.append(": ");
        match &self.err {
            Some(err) => {
                s.append(err.as_str());
            },
            None => {
                s.append("unknown error");
            },
        }
        match &self.entity_id {
            Some(id) => {
                s.append(" entity ID: ");
                let id_text = id.to_text();
                s.append(id_text.as_str());
            },
            None => {},
        }
        proof {
            assert(s@ =~= repo_error_text(*self));
        }
        s
    }

    /// Builds a failure record from its parts.
    pub fn new(op: RepoOperation, err: Option<String>, entity_id: Option<Uuid>) -> (e: RepoError)
        ensures
            e.op == op,
            e.err == err,
            e.entity_id == entity_id,
    {
        RepoError { err, op, entity_id }
    }
}

/// True if some entry of `entries` is keyed by `id`.
pub open spec fn repo_has<E>(entries: Seq<(Uuid, E)>, id: Uuid) -> bool {
    exists|i: int| 0 <= i < entries.len() && (#[trigger] entries[i]).0 == id
}

/// The first entity stored under `id`, or `None`.
pub open spec fn repo_first<E>(entries: Seq<(Uuid, E)>, id: Uuid) -> Option<E>
    decreases entries.len(),
{
    if entries.len() == 0 {
        None
    } else if entries[0].0 == id {
        Some(entries[0].1)
    } else {
        repo_first(entries.drop_first(), id)
    }
}

/// An in-memory entity repository keyed by entity id.
pub struct MemoryRepo<E> {
    pub entries: Vec<(Uuid, E)>,
}

impl<E: Entity + EntityClone> MemoryRepo<E> {
    /// Well-formedness: one entry per id.
    pub open spec fn wf(&self) -> bool {
        forall|i: int, j: int|
            0 <= i < j < self.entries@.len() ==> (#[trigger] self.entries@[i]).0 != (
            #[trigger] self.entries@[j]).0
    }

    /// An empty repository.
    pub fn new() -> (r: MemoryRepo<E>)
        ensures
            r.entries@ == Seq::<(Uuid, E)>::empty(),
            r.wf(),
    {
        MemoryRepo { entries: Vec::new() }
    }

    fn find_index(&self, id: Uuid) -> (r: Option<usize>)
        ensures
            r is Some ==> 0 <= r->0 < self.entries@.len() && self.entries@[r->0 as int].0 == id
                && (forall|j: int| 0 <= j < r->0 ==> (#[trigger] self.entries@[j]).0 != id),
            r is None ==> forall|j: int|
                0 <= j < self.entries@.len() ==> (#[trigger] self.entries@[j]).0 != id,
    {
        let n = self.entries.len();
        let mut i: usize = 0;
        while i < n
            invariant
                n == self.entries@.len(),
                i <= n,
                forall|j: int| 0 <= j < i ==> (#[trigger] self.entries@[j]).0 != id,
            decreases n - i,
        {
            if self.entries[i].0 == id {
                return Some(i);
            }
            i = i + 1;
        }
        None
    }

    /// Returns a copy of the entity stored under `id`, or a `Find`
    /// failure naming the id.
    pub fn find(&self, id: Uuid) -> (r: Result<E, RepoError>)
        ensures
            r is Ok <==> repo_has(self.entries@, id),
            r is Ok ==> repo_first(self.entries@, id) == Some(r->Ok_0),
            r is Err ==> r->Err_0.op == RepoOperation::Find && r->Err_0.entity_id == Some(id),
    {
        match self.find_index(id) {
            Some(i) => {
                proof {
                    lemma_repo_first_match(self.entries@, id, i as int);
                }
                Ok(self.entries[i].1.clone_entity())
            },
            None => {
                Err(RepoError { err: None, op: RepoOperation::Find, entity_id: Some(id) })
            },
        }
    }

    /// Returns a copy of every stored entity, in insertion order.
    pub fn find_all(&self) -> (r: Result<Vec<E>, RepoError>)
        ensures
            r is Ok,
            r->Ok_0@ == self.entries@.map_values(|p: (Uuid, E)| p.1),
    {
        let mut out: Vec<E> = Vec::new();
        let n = self.entries.len();
        let mut i: usize = 0;
        while i < n
            invariant
                n == self.entries@.len(),
                i <= n,
                out@ == self.entries@.subrange(0, i as int).map_values(|p: (Uuid, E)| p.1),
            decreases n - i,
        {
            out.push(self.entries[i].1.clone_entity());
            proof {
                assert(out@ =~= self.entries@.subrange(0, i as int + 1).map_values(
                    |p: (Uuid, E)| p.1,
                ));
            }
            i = i + 1;
        }
        proof {
            assert(self.entries@.subrange(0, n as int) =~= self.entries@);
        }
        Ok(out)
    }

    /// Stores the entity under its own id, replacing any entity already
    /// stored there.
    pub fn save(&mut self, entity: E) -> (r: Result<(), RepoError>)
        ensures
            r is Ok,
            exists|id: Uuid|
                repo_first(final(self).entries@, id) == Some(entity) && (forall|id2: Uuid|
                    id2 != id ==> repo_first(final(self).entries@, id2) == repo_first(
                        old(self).entries@,
                        id2,
                    )),
            old(self).wf() ==> final(self).wf(),
    {
        let id = entity.id();
        match self.find_index(id) {
            Some(i) => {
                let ghost pre = self.entries@;
                let _prior = self.entries.remove(i);
                let fresh_pair = (id, entity);
                let ghost gpair = fresh_pair;
                self.entries.insert(i, fresh_pair);
                proof {
                    assert(self.entries@ =~= pre.update(i as int, gpair));
                    lemma_repo_first_match(self.entries@, id, i as int);
                    assert forall|id2: Uuid| id2 != id implies repo_first(self.entries@, id2)
                        == repo_first(pre, id2) by {
                        lemma_repo_update(pre, i as int, gpair, id2);
                    }
                }
                Ok(())
            },
            None => {
                let ghost pre = self.entries@;
                let fresh_pair = (id, entity);
                let ghost gpair = fresh_pair;
                self.entries.push(fresh_pair);
                proof {
                    assert(self.entries@ =~= pre.push(gpair));
                    lemma_repo_push_new(pre, gpair);
                    assert forall|id2: Uuid| id2 != id implies repo_first(self.entries@, id2)
                        == repo_first(pre, id2) by {
                        lemma_repo_push(pre, gpair, id2);
                    }
                }
                Ok(())
            },
        }
    }

    /// Removes the entity stored under `id`, or fails with a `Remove`
    /// error when none is.
    pub fn remove(&mut self, id: Uuid) -> (r: Result<(), RepoError>)
        ensures
            r is Ok <==> repo_has(old(self).entries@, id),
            r is Err ==> *final(self) == *old(self) && r->Err_0.op == RepoOperation::Remove,
            old(self).wf() && r is Ok ==> !repo_has(final(self).entries@, id),
            old(self).wf() ==> final(self).wf(),
    {
        match self.find_index(id) {
            Some(i) => {
                let ghost pre = self.entries@;
                let _removed = self.entries.remove(i);
                proof {
                    assert(self.entries@ =~= pre.remove(i as int));
                    if old(self).wf() {
                        assert forall|j: int|
                            0 <= j < self.entries@.len() implies (#[trigger] self.entries@[j]).0
                            != id by {
                            if j < i {
                                assert(self.entries@[j] == pre[j]);
                            } else {
                                assert(self.entries@[j] == pre[j + 1]);
                            }
                        }
                    }
                }
                Ok(())
            },
            None => {
                Err(RepoError { err: None, op: RepoOperation::Remove, entity_id: Some(id) })
            },
        }
    }

    /// Releases nothing: the in-memory repository holds no resources.
    pub fn close(&self) -> (r: Result<(), RepoError>)
        ensures
            r is Ok,
    {
        Ok(())
    }
}

proof fn lemma_repo_first_match<E>(entries: Seq<(Uuid, E)>, id: Uuid, i: int)
    requires
        0 <= i < entries.len(),
        entries[i].0 == id,
        forall|j: int| 0 <= j < i ==> (#[trigger] entries[j]).0 != id,
    ensures
        repo_first(entries, id) == Some(entries[i].1),
    decreases entries.len(),
{
    if i > 0 {
        lemma_repo_first_match(entries.drop_first(), id, i - 1);
    }
}

proof fn lemma_repo_update<E>(entries: Seq<(Uuid, E)>, i: int, p: (Uuid, E), id: Uuid)
    requires
        0 <= i < entries.len(),
        entries[i].0 == p.0,
        p.0 != id,
    ensures
        repo_first(entries.update(i, p), id) == repo_first(entries, id),
    decreases entries.len(),
{
    if i == 0 {
        assert(entries.update(0, p).drop_first() =~= entries.drop_first());
    } else {
        assert(entries.update(i, p).drop_first() =~= entries.drop_first().update(i - 1, p));
        lemma_repo_update(entries.drop_first(), i - 1, p, id);
    }
}

proof fn lemma_repo_push<E>(entries: Seq<(Uuid, E)>, p: (Uuid, E), id: Uuid)
    requires
        p.0 != id,
    ensures
        repo_first(entries.push(p), id) == repo_first(entries, id),
    decreases entries.len(),
{
    if entries.len() == 0 {
        assert(entries.push(p)[0] == p);
        assert(entries.push(p).drop_first() =~= Seq::<(Uuid, E)>::empty());
        assert(repo_first(Seq::<(Uuid, E)>::empty(), id) is None);
    } else {
        assert(entries.push(p)[0] == entries[0]);
        assert(entries.push(p).drop_first() =~= entries.drop_first().push(p));
        lemma_repo_push(entries.drop_first(), p, id);
    }
}

proof fn lemma_repo_push_new<E>(entries: Seq<(Uuid, E)>, p: (Uuid, E))
    requires
        forall|j: int| 0 <= j < entries.len() ==> (#[trigger] entries[j]).0 != p.0,
    ensures
        repo_first(entries.push(p), p.0) == Some(p.1),
    decreases entries.len(),
{
    if entries.len() == 0 {
        assert(entries.push(p)[0] == p);
    } else {
        assert(entries.push(p)[0] == entries[0]);
        assert(entries.push(p).drop_first() =~= entries.drop_first().push(p));
        lemma_repo_push_new(entries.drop_first(), p);
    }
}

impl<E: Entity + EntityClone> ReadRepo<E> for MemoryRepo<E> {
    fn find(&self, id: Uuid) -> (r: Result<E, RepoError>)
        ensures
            r is Ok <==> repo_has(self.entries@, id),
    {
        MemoryRepo::find(self, id)
    }

    fn find_all(&self) -> (r: Result<Vec<E>, RepoError>)
        ensures
            r is Ok,
    {
        MemoryRepo::find_all(self)
    }

    fn close(&self) -> (r: Result<(), RepoError>)
        ensures
            r is Ok,
    {
        MemoryRepo::close(self)
    }
}

impl<E: Entity + EntityClone> WriteRepo<E> for MemoryRepo<E> {
    fn save(&mut self, entity: E) -> (r: Result<(), RepoError>)
        ensures
            r is Ok,
    {
        MemoryRepo::save(self, entity)
    }

    fn remove(&mut self, id: Uuid) -> (r: Result<(), RepoError>)
        ensures
            r is Ok <==> repo_has(old(self).entries@, id),
    {
        MemoryRepo::remove(self, id)
    }
}

impl<E: Entity + EntityClone> ReadWriteRepo<E> for MemoryRepo<E> {

}

} // verus!
