//! The item type managed by the repository's default table.

use vstd::prelude::*;

use crate::db::SoftDeletable;

verus! {

/// A stored item: a key, its domain fields, and the soft-delete markers.
pub struct Item {
    pub id: String,
    pub name: String,
    pub age: u32,
    pub deleted_at: Option<String>,
    pub deleted_by: Option<String>,
}

/// The caller-supplied body of an item about to be created; the key is
/// assigned by the front end at creation time.
pub struct CreateItem {
    pub name: String,
    pub age: u32,
}

impl SoftDeletable for Item {
    open spec fn spec_id(&self) -> Seq<char> {
        self.id@
    }

    open spec fn spec_deleted_at(&self) -> Option<Seq<char>> {
        self.deleted_at.deep_view()
    }

    open spec fn spec_deleted_by(&self) -> Option<Seq<char>> {
        self.deleted_by.deep_view()
    }

    open spec fn spec_with_tombstone(&self, deleted_at: String, deleted_by: String) -> Item {
        Item { deleted_at: Some(deleted_at), deleted_by: Some(deleted_by), ..*self }
    }

    fn get_id(&self) -> (r: &String) {
        &self.id
    }

    fn get_deleted_at(&self) -> (r: &Option<String>) {
        &self.deleted_at
    }

    fn get_deleted_by(&self) -> (r: &Option<String>) {
        &self.deleted_by
    }

    fn with_tombstone(&self, deleted_at: &String, deleted_by: &String) -> (r: Item) {
        Item {
            id: self.id.clone(),
            name: self.name.clone(),
            age: self.age,
            deleted_at: Some(deleted_at.clone()),
            deleted_by: Some(deleted_by.clone()),
        }
    }

    fn duplicate(&self) -> (r: Item) {
        Item {
            id: self.id.clone(),
            name: self.name.clone(),
            age: self.age,
            deleted_at: clone_optional(&self.deleted_at),
            deleted_by: clone_optional(&self.deleted_by),
        }
    }

    proof fn lemma_tombstone_fields(&self, deleted_at: String, deleted_by: String) {
    }
}

/// Clones an optional string, keeping its value.
pub fn clone_optional(o: &Option<String>) -> (r: Option<String>)
    ensures
        r == *o,
{
    match o {
        Some(s) => Some(s.clone()),
        None => None,
    }
}

} // verus!
