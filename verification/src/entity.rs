//! The capability every storable type must provide: a stable collection
//! name for the type and a unique, caller-assigned string key per instance.
//!
//! Entities are otherwise opaque payloads to this layer; it never inspects
//! their fields. An empty key or an unstable collection name is a caller
//! bug that this layer does not defend against.

use vstd::prelude::*;

verus! {

/// The contract a type must meet to be stored by this layer.
pub trait Entity: Sized {
    /// The key of this instance, as a mathematical value.
    spec fn spec_key(&self) -> Seq<char>;

    /// The logical collection name of the type, as a mathematical value.
    spec fn spec_collection_name() -> Seq<char>;

    /// The unique identifier of this instance. Stable for the instance's
    /// lifetime; expected (not enforced) to be non-empty.
    fn key(&self) -> (r: String)
        ensures
            r@ == self.spec_key(),
    ;

    /// The collection this type's documents live in: pure and
    /// deterministic, one value per type.
    fn collection_name() -> (r: String)
        ensures
            r@ == Self::spec_collection_name(),
    ;

    /// An exact copy of this instance, so the layer can hand out
    /// documents while keeping its own state.
    fn duplicate(&self) -> (r: Self)
        ensures
            r == *self,
    ;
}

/// A ready-made document type: a keyed record with two optional payload
/// fields. It shows the `Entity` contract met in full and gives the write
/// operations a concrete full-replace target (a field present on a stored
/// record and absent from its replacement does not survive an update).
#[derive(Debug, PartialEq, Eq)]
pub struct Record {
    /// The caller-assigned unique key.
    pub key: String,
    /// An optional display name.
    pub name: Option<String>,
    /// An optional counter payload.
    pub count: Option<u64>,
}

impl Entity for Record {
    open spec fn spec_key(&self) -> Seq<char> {
        self.key@
    }

    open spec fn spec_collection_name() -> Seq<char> {
        "records"@
    }

    fn key(&self) -> (r: String) {
        self.key.clone()
    }

    fn collection_name() -> (r: String) {
        "records".to_owned()
    }

    fn duplicate(&self) -> (r: Self) {
        Record {
            key: self.key.clone(),
            name: match &self.name {
                Some(n) => Some(n.clone()),
                None => None,
            },
            count: self.count,
        }
    }
}

} // verus!
