//! The decisions the item route handlers make: building the item a
//! creation request describes, guarding updates, and attributing
//! deletions, separated from the HTTP machinery around them.

use vstd::prelude::*;

use crate::auth::Claims;
use crate::db::create_post;
use crate::db::soft_delete_post;
use crate::db::update_post;
use crate::db::DynamoDbOperations;
use crate::db::OperationResult;
use crate::db::Repository;
use crate::db::SoftDeletable;
use crate::item::CreateItem;
use crate::item::Item;

verus! {

/// Relies on uuid's `Uuid::new_v4` and its hyphenated rendering: a fresh
/// random version-4 key, written as 36 characters.
#[verifier::external_body]
fn fresh_id() -> (r: String)
    ensures
        r@.len() == 36,
{
    uuid::Uuid::new_v4().to_string()
}

/// The query parameters the parameters route echoes back.
pub struct Params {
    pub first: Option<String>,
    pub second: Option<String>,
}

/// Serves a creation request: assigns a fresh key — returned beside the
/// outcome — and creates the item with the requested fields and no
/// deletion markers.
pub fn create(db: &mut Repository<Item>, create_item: CreateItem)
    -> (r: (OperationResult<Item>, String))
    requires
        old(db).inv(),
    ensures
        final(db).inv(),
        r.1@.len() == 36,
        create_post(
            old(db).records(),
            final(db).records(),
            Item {
                id: r.1,
                name: create_item.name,
                age: create_item.age,
                deleted_at: None,
                deleted_by: None,
            },
            r.0,
        ),
{
    let id = fresh_id();
    let item = Item {
        id: id.clone(),
        name: create_item.name,
        age: create_item.age,
        deleted_at: None,
        deleted_by: None,
    };
    let result = db.create(item);
    (result, id)
}

/// Serves an update request: the key in the path must match the item's
/// own key and the item may not carry deletion markers — such a request
/// is refused as invalid input and changes nothing; otherwise the
/// repository's exists-and-active update applies.
pub fn update(db: &mut Repository<Item>, id: String, item: Item) -> (r: OperationResult<Item>)
    requires
        old(db).inv(),
    ensures
        final(db).inv(),
        id@ != item.spec_id() || item.spec_deleted_at() is Some
            || item.spec_deleted_by() is Some ==> r == OperationResult::<Item>::InvalidInput
            && *final(db) == *old(db),
        id@ == item.spec_id() && item.spec_deleted_at() is None
            && item.spec_deleted_by() is None ==> update_post(
            old(db).records(),
            final(db).records(),
            item,
            r,
        ),
{
    if !(id == item.id) {
        return OperationResult::InvalidInput;
    }
    if item.deleted_at.is_some() || item.deleted_by.is_some() {
        return OperationResult::InvalidInput;
    }
    db.update(item)
}

/// Serves a deletion request: an authenticated caller soft-deletes the
/// item, attributed to their username and stamped with the given time; an
/// unauthenticated request decides nothing, for the front end to refuse.
pub fn delete(db: &mut Repository<Item>, id: String, claims: Option<&Claims>, now: String)
    -> (r: Option<OperationResult<Item>>)
    requires
        old(db).inv(),
    ensures
        final(db).inv(),
        claims is None ==> *final(db) == *old(db) && r is None,
        claims matches Some(c) ==> r matches Some(outcome) && soft_delete_post(
            old(db).records(),
            final(db).records(),
            id@,
            c.username,
            now,
            outcome,
        ),
{
    match claims {
        Some(c) => Some(db.soft_delete(id, c.username.clone(), now)),
        None => None,
    }
}

} // verus!
