//! Entities: items identified by an id, optionally carrying a version.

use vstd::prelude::*;
use crate::uuid::Uuid;

verus! {

/// An item identified by an id.
pub trait Entity {
    fn entity_id(&self) -> Uuid;
}

/// An item that carries an aggregate version.
pub trait Versionable {
    fn aggregate_version(&self) -> u64;
}

/// A concrete entity with an id and a version.
#[derive(Clone, Copy, Debug, PartialEq, Eq, Structural)]
pub struct MyEntity {
    pub id: Uuid,
    pub version: u64,
}

impl MyEntity {
    /// Builds an entity from its id and version.
    pub fn new(id: Uuid, version: u64) -> (e: MyEntity)
        ensures
            e.id == id,
            e.version == version,
    {
        MyEntity { id, version }
    }
}

impl Entity for MyEntity {
    fn entity_id(&self) -> (id: Uuid)
        ensures
            id == self.id,
    {
        self.id
    }
}

impl Versionable for MyEntity {
    fn aggregate_version(&self) -> (v: u64)
        ensures
            v == self.version,
    {
        self.version
    }
}

} // verus!
