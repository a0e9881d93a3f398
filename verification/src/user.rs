//! The user record and the user-table extension of the repository.

use vstd::prelude::*;

use crate::db::update_post;
use crate::db::DynamoDbOperations;
use crate::db::OperationResult;
use crate::db::Repository;
use crate::db::SoftDeletable;
use crate::item::clone_optional;
use crate::store::active_in;
use crate::store::index_of_id;
use crate::store::stored;

verus! {

/// A stored user: its key, account fields, and the soft-delete markers.
pub struct User {
    pub id: String,
    pub email: String,
    pub username: String,
    pub created_at: String,
    pub email_verified: bool,
    pub password_hash: Option<String>,
    pub admin: bool,
    pub deleted_at: Option<String>,
    pub deleted_by: Option<String>,
}

impl SoftDeletable for User {
    open spec fn spec_id(&self) -> Seq<char> {
        self.id@
    }

    open spec fn spec_deleted_at(&self) -> Option<Seq<char>> {
        self.deleted_at.deep_view()
    }

    open spec fn spec_deleted_by(&self) -> Option<Seq<char>> {
        self.deleted_by.deep_view()
    }

    open spec fn spec_with_tombstone(&self, deleted_at: String, deleted_by: String) -> User {
        User { deleted_at: Some(deleted_at), deleted_by: Some(deleted_by), ..*self }
    }

    fn get_id(&self) -> (r: &String) {
        &self.id
    }

    fn get_deleted_at(&self) -> (r: &Option<String>) {
        &self.deleted_at
    }

    fn get_deleted_by(&self) -> (r: &Option<String>) {
        &self.deleted_by
    }

    fn with_tombstone(&self, deleted_at: &String, deleted_by: &String) -> (r: User) {
        User {
            id: self.id.clone(),
            email: self.email.clone(),
            username: self.username.clone(),
            created_at: self.created_at.clone(),
            email_verified: self.email_verified,
            password_hash: clone_optional(&self.password_hash),
            admin: self.admin,
            deleted_at: Some(deleted_at.clone()),
            deleted_by: Some(deleted_by.clone()),
        }
    }

    fn duplicate(&self) -> (r: User) {
        User {
            id: self.id.clone(),
            email: self.email.clone(),
            username: self.username.clone(),
            created_at: self.created_at.clone(),
            email_verified: self.email_verified,
            password_hash: clone_optional(&self.password_hash),
            admin: self.admin,
            deleted_at: clone_optional(&self.deleted_at),
            deleted_by: clone_optional(&self.deleted_by),
        }
    }

    proof fn lemma_tombstone_fields(&self, deleted_at: String, deleted_by: String) {
    }
}

/// What the admin-status update does: while the key holds an active user,
/// it flips exactly that user's `admin` flag; otherwise it refuses with
/// `ItemNotFound` and changes nothing.
pub open spec fn admin_update_post(
    pre: Seq<User>,
    post: Seq<User>,
    id: Seq<char>,
    admin: bool,
    r: OperationResult<User>,
) -> bool {
    if active_in(pre, id) {
        post == pre.update(index_of_id(pre, id), User { admin, ..stored(pre, id) })
            && r == OperationResult::<User>::Success(None)
    } else {
        post == pre && r == OperationResult::<User>::ItemNotFound
    }
}

/// The body of a request to change a user's admin status.
pub struct UpdateAdminStatusRequest {
    pub admin: bool,
}

/// The user-table repository: the common operations plus an update of the
/// stored admin flag, guarded by the same exists-and-active condition.
pub trait UserDynamoDbRepository: DynamoDbOperations<User> {
    fn update_admin_status(&mut self, id: String, admin: bool) -> (r: OperationResult<User>)
        requires
            old(self).inv(),
        ensures
            final(self).inv(),
            admin_update_post(old(self).records(), final(self).records(), id@, admin, r),
    ;
}

impl UserDynamoDbRepository for Repository<User> {
    fn update_admin_status(&mut self, id: String, admin: bool) -> (r: OperationResult<User>) {
        proof {
            old(self).lemma_inv_records();
        }
        match self.get_item(id) {
            OperationResult::Success(Some(user)) => {
                let changed = User { admin, ..user };
                self.update(changed)
            },
            _ => OperationResult::ItemNotFound,
        }
    }
}

} // verus!
