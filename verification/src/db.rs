//! The repository interface: operation results, the marker trait for
//! soft-deletable items, and the operations a store-backed repository offers.

use vstd::prelude::*;

use crate::store::active_in;
use crate::store::has_id;
use crate::store::ids_distinct;
use crate::store::index_of_id;
use crate::store::is_active;
use crate::store::lemma_index_of_id;
use crate::store::lemma_matching_add;
use crate::store::lemma_matching_contains;
use crate::store::lemma_matching_from;
use crate::store::matching;
use crate::store::page_end;
use crate::store::stored;
use crate::store::MemoryStore;
use crate::store::ScanFilter;

verus! {

/// Outcome of a repository operation, as surfaced to request handlers.
pub enum OperationResult<T> {
    /// The operation succeeded; point reads carry the item, scans are
    /// reported separately, writes carry nothing.
    Success(Option<T>),
    /// The addressed item is absent or tombstoned; the two cases are
    /// deliberately indistinguishable to callers.
    ItemNotFound,
    /// An item with the same key already exists.
    ItemAlreadyExists,
    /// The request itself was malformed.
    InvalidInput,
    /// The underlying store failed; the message is passed through.
    InternalError(String),
}

impl<T> OperationResult<T> {
    /// The status code and message a failed operation answers with;
    /// successes are rendered by the route itself.
    pub fn response_parts(&self) -> (r: (u16, String))
        requires
            !(self is Success),
        ensures
            self is ItemNotFound ==> r.0 == 404 && r.1@ == "Item not found"@,
            self is ItemAlreadyExists ==> r.0 == 409 && r.1@ == "Item already exists"@,
            self is InvalidInput ==> r.0 == 400 && r.1@ == "Invalid input"@,
            self matches OperationResult::InternalError(e) ==> r.0 == 500 && r.1 == e,
    {
        match self {
            OperationResult::Success(_) => (500, String::new()),
            OperationResult::ItemNotFound => (404, "Item not found".to_owned()),
            OperationResult::ItemAlreadyExists => (409, "Item already exists".to_owned()),
            OperationResult::InvalidInput => (400, "Invalid input".to_owned()),
            OperationResult::InternalError(e) => (500, e.clone()),
        }
    }
}

/// An item that carries a soft-delete marker: an identifier, an optional
/// deletion timestamp and an optional identity of who deleted it.
pub trait SoftDeletable: Sized {
    /// The item's key.
    spec fn spec_id(&self) -> Seq<char>;

    /// The deletion timestamp; absent while the item is active.
    spec fn spec_deleted_at(&self) -> Option<Seq<char>>;

    /// Who performed the soft delete; set together with the timestamp.
    spec fn spec_deleted_by(&self) -> Option<Seq<char>>;

    /// The same item with both deletion markers set and every other field kept.
    spec fn spec_with_tombstone(&self, deleted_at: String, deleted_by: String) -> Self;

    fn get_id(&self) -> (r: &String)
        ensures
            r@ == self.spec_id(),
    ;

    fn get_deleted_at(&self) -> (r: &Option<String>)
        ensures
            r.deep_view() == self.spec_deleted_at(),
    ;

    fn get_deleted_by(&self) -> (r: &Option<String>)
        ensures
            r.deep_view() == self.spec_deleted_by(),
    ;

    fn with_tombstone(&self, deleted_at: &String, deleted_by: &String) -> (r: Self)
        ensures
            r == self.spec_with_tombstone(*deleted_at, *deleted_by),
    ;

    fn duplicate(&self) -> (r: Self)
        ensures
            r == *self,
    ;

    /// Setting the tombstone keeps the key and sets exactly the two markers.
    proof fn lemma_tombstone_fields(&self, deleted_at: String, deleted_by: String)
        ensures
            self.spec_with_tombstone(deleted_at, deleted_by).spec_id() == self.spec_id(),
            self.spec_with_tombstone(deleted_at, deleted_by).spec_deleted_at()
                == Some(deleted_at@),
            self.spec_with_tombstone(deleted_at, deleted_by).spec_deleted_by()
                == Some(deleted_by@),
    ;
}

/// Each record carries either both deletion markers or neither.
pub open spec fn records_consistent<T: SoftDeletable>(s: Seq<T>) -> bool {
    forall|i: int| 0 <= i < s.len()
        ==> ((#[trigger] s[i].spec_deleted_at() is Some) <==> (s[i].spec_deleted_by() is Some))
}

/// What a point read returns: the stored record while it is active, and
/// `ItemNotFound` when the key is absent or tombstoned.
pub open spec fn get_item_post<T: SoftDeletable>(
    s: Seq<T>,
    id: Seq<char>,
    r: OperationResult<T>,
) -> bool {
    if active_in(s, id) {
        r == OperationResult::Success(Some(stored(s, id)))
    } else {
        r == OperationResult::<T>::ItemNotFound
    }
}

/// What creation does: appends the item while its key is absent, and
/// refuses with `ItemAlreadyExists`, changing nothing, while it is present.
pub open spec fn create_post<T: SoftDeletable>(
    pre: Seq<T>,
    post: Seq<T>,
    item: T,
    r: OperationResult<T>,
) -> bool {
    if has_id(pre, item.spec_id()) {
        post == pre && r == OperationResult::<T>::ItemAlreadyExists
    } else {
        post == pre.push(item) && r == OperationResult::<T>::Success(None)
    }
}

/// What an update does: replaces the stored record while the key holds an
/// active one, and refuses with `ItemNotFound`, changing nothing, while the
/// key is absent or tombstoned.
pub open spec fn update_post<T: SoftDeletable>(
    pre: Seq<T>,
    post: Seq<T>,
    item: T,
    r: OperationResult<T>,
) -> bool {
    if active_in(pre, item.spec_id()) {
        post == pre.update(index_of_id(pre, item.spec_id()), item)
            && r == OperationResult::<T>::Success(None)
    } else {
        post == pre && r == OperationResult::<T>::ItemNotFound
    }
}

/// What a hard delete does: removes the record if the key is present, and
/// succeeds either way.
pub open spec fn delete_post<T: SoftDeletable>(
    pre: Seq<T>,
    post: Seq<T>,
    id: Seq<char>,
    r: OperationResult<T>,
) -> bool {
    r == OperationResult::<T>::Success(None)
        && post == if has_id(pre, id) {
            pre.remove(index_of_id(pre, id))
        } else {
            pre
        }
}

/// What a soft delete does: sets the two deletion markers of the stored
/// record while the key holds an active one, and refuses with
/// `ItemNotFound`, changing nothing, while the key is absent or already
/// tombstoned.
pub open spec fn soft_delete_post<T: SoftDeletable>(
    pre: Seq<T>,
    post: Seq<T>,
    id: Seq<char>,
    user_id: String,
    now: String,
    r: OperationResult<T>,
) -> bool {
    if active_in(pre, id) {
        post == pre.update(
            index_of_id(pre, id),
            stored(pre, id).spec_with_tombstone(now, user_id),
        ) && r == OperationResult::<T>::Success(None)
    } else {
        post == pre && r == OperationResult::<T>::ItemNotFound
    }
}

/// What a scan-family operation returns: exactly the records passing the
/// filter, in stored order.
pub open spec fn scan_post<T: SoftDeletable>(
    s: Seq<T>,
    f: ScanFilter,
    r: OperationResult<Vec<T>>,
) -> bool {
    r matches OperationResult::Success(Some(v)) && v@ == matching(s, f)
}

/// The operations of a store-backed soft-delete repository.
pub trait DynamoDbOperations<T: SoftDeletable>: Sized {
    /// The records the backing store currently holds, in stored order.
    spec fn records(&self) -> Seq<T>;

    /// The repository's invariant: keys are distinct and deletion markers
    /// are set in pairs.
    spec fn inv(&self) -> bool;

    fn get_item(&self, id: String) -> (r: OperationResult<T>)
        requires
            self.inv(),
        ensures
            get_item_post(self.records(), id@, r),
    ;

    fn create(&mut self, item: T) -> (r: OperationResult<T>)
        requires
            old(self).inv(),
            is_active(item),
            item.spec_deleted_by() is None,
        ensures
            final(self).inv(),
            create_post(old(self).records(), final(self).records(), item, r),
    ;

    fn update(&mut self, item: T) -> (r: OperationResult<T>)
        requires
            old(self).inv(),
            is_active(item),
            item.spec_deleted_by() is None,
        ensures
            final(self).inv(),
            update_post(old(self).records(), final(self).records(), item, r),
    ;

    fn delete(&mut self, id: String) -> (r: OperationResult<T>)
        requires
            old(self).inv(),
        ensures
            final(self).inv(),
            delete_post(old(self).records(), final(self).records(), id@, r),
    ;

    fn soft_delete(&mut self, id: String, user_id: String, now: String) -> (r: OperationResult<T>)
        requires
            old(self).inv(),
        ensures
            final(self).inv(),
            soft_delete_post(old(self).records(), final(self).records(), id@, user_id, now, r),
    ;

    fn scan(&self) -> (r: OperationResult<Vec<T>>)
        requires
            self.inv(),
        ensures
            scan_post(self.records(), ScanFilter::Active, r),
    ;

    fn get_deleted_items(&self) -> (r: OperationResult<Vec<T>>)
        requires
            self.inv(),
        ensures
            scan_post(self.records(), ScanFilter::Deleted, r),
    ;

    fn get_deleted_items_by_user(&self, user_id: String) -> (r: OperationResult<Vec<T>>)
        requires
            self.inv(),
        ensures
            scan_post(self.records(), ScanFilter::DeletedBy(user_id), r),
    ;

    /// The invariant bounds the records: keys are distinct and deletion
    /// markers come in pairs.
    proof fn lemma_inv_records(&self)
        requires
            self.inv(),
        ensures
            ids_distinct(self.records()),
            records_consistent(self.records()),
    ;
}

/// A repository over the in-memory conditional-write store.
pub struct Repository<T> {
    store: MemoryStore<T>,
}

impl<T: SoftDeletable> Repository<T> {
    /// An empty repository whose store scans in pages of the given size.
    pub fn new(page_size: usize) -> (r: Repository<T>)
        requires
            page_size >= 1,
        ensures
            r.records() == Seq::<T>::empty(),
            r.inv(),
    {
        Repository { store: MemoryStore::new(page_size) }
    }

    /// Accumulates a filtered scan page by page, following the cursor
    /// until the store reports no further page.
    fn scan_all(&self, filter: &ScanFilter) -> (r: Vec<T>)
        requires
            self.store.wf(),
        ensures
            r@ == matching(self.store@, *filter),
    {
        let mut out: Vec<T> = Vec::new();
        let mut cursor: usize = 0;
        loop
            invariant_except_break
                out@ == matching(self.store@.subrange(0, cursor as int), *filter),
            invariant
                self.store.wf(),
                cursor <= self.store@.len(),
            ensures
                out@ == matching(self.store@, *filter),
            decreases self.store@.len() - cursor,
        {
            let (mut page, next) = self.store.scan_page(filter, cursor);
            proof {
                let s = self.store@;
                let e = page_end(cursor as int, self.store.spec_page_size(), s.len() as int);
                assert(s.subrange(0, e)
                    =~= s.subrange(0, cursor as int) + s.subrange(cursor as int, e));
                lemma_matching_add(
                    s.subrange(0, cursor as int),
                    s.subrange(cursor as int, e),
                    *filter,
                );
            }
            out.append(&mut page);
            match next {
                Some(n) => {
                    cursor = n;
                },
                None => {
                    proof {
                        assert(self.store@.subrange(0, self.store@.len() as int)
                            =~= self.store@);
                    }
                    break;
                },
            }
        }
        out
    }
}

impl<T: SoftDeletable> DynamoDbOperations<T> for Repository<T> {
    closed spec fn records(&self) -> Seq<T> {
        self.store@
    }

    closed spec fn inv(&self) -> bool {
        self.store.wf() && records_consistent(self.store@)
    }

    fn get_item(&self, id: String) -> (r: OperationResult<T>) {
        match self.store.get(&id) {
            Some(record) => {
                if record.get_deleted_at().is_none() {
                    OperationResult::Success(Some(record))
                } else {
                    OperationResult::ItemNotFound
                }
            },
            None => OperationResult::ItemNotFound,
        }
    }

    fn create(&mut self, item: T) -> (r: OperationResult<T>) {
        let ghost item_spec = item;
        if self.store.put_if_absent(item) {
            proof {
                let post = self.store@;
                assert forall|i: int| 0 <= i < post.len() implies
                    ((#[trigger] post[i].spec_deleted_at() is Some)
                        <==> (post[i].spec_deleted_by() is Some)) by {
                    if i < post.len() - 1 {
                        assert(post[i] == old(self).store@[i]);
                    } else {
                        assert(post[i] == item_spec);
                    }
                }
            }
            OperationResult::Success(None)
        } else {
            OperationResult::ItemAlreadyExists
        }
    }

    fn update(&mut self, item: T) -> (r: OperationResult<T>) {
        let ghost item_spec = item;
        if self.store.put_if_active(item) {
            proof {
                let pre = old(self).store@;
                let post = self.store@;
                let k = index_of_id(pre, item_spec.spec_id());
                assert forall|i: int| 0 <= i < post.len() implies
                    ((#[trigger] post[i].spec_deleted_at() is Some)
                        <==> (post[i].spec_deleted_by() is Some)) by {
                    if i != k {
                        assert(post[i] == pre[i]);
                    } else {
                        assert(post[i] == item_spec);
                    }
                }
            }
            OperationResult::Success(None)
        } else {
            OperationResult::ItemNotFound
        }
    }

    fn delete(&mut self, id: String) -> (r: OperationResult<T>) {
        if self.store.delete(&id) {
            proof {
                let pre = old(self).store@;
                let post = self.store@;
                let k = index_of_id(pre, id@);
                assert forall|i: int| 0 <= i < post.len() implies
                    ((#[trigger] post[i].spec_deleted_at() is Some)
                        <==> (post[i].spec_deleted_by() is Some)) by {
                    let i0: int = if i < k { i } else { i + 1 };
                    assert(post[i] == pre[i0]);
                }
            }
        }
        OperationResult::Success(None)
    }

    fn soft_delete(&mut self, id: String, user_id: String, now: String)
        -> (r: OperationResult<T>) {
        if self.store.tombstone_if_active(&id, &now, &user_id) {
            proof {
                let pre = old(self).store@;
                let post = self.store@;
                let k = index_of_id(pre, id@);
                stored(pre, id@).lemma_tombstone_fields(now, user_id);
                assert forall|i: int| 0 <= i < post.len() implies
                    ((#[trigger] post[i].spec_deleted_at() is Some)
                        <==> (post[i].spec_deleted_by() is Some)) by {
                    if i != k {
                        assert(post[i] == pre[i]);
                    }
                }
            }
            OperationResult::Success(None)
        } else {
            OperationResult::ItemNotFound
        }
    }

    fn scan(&self) -> (r: OperationResult<Vec<T>>) {
        OperationResult::Success(Some(self.scan_all(&ScanFilter::Active)))
    }

    fn get_deleted_items(&self) -> (r: OperationResult<Vec<T>>) {
        OperationResult::Success(Some(self.scan_all(&ScanFilter::Deleted)))
    }

    fn get_deleted_items_by_user(&self, user_id: String) -> (r: OperationResult<Vec<T>>) {
        OperationResult::Success(Some(self.scan_all(&ScanFilter::DeletedBy(user_id))))
    }

    proof fn lemma_inv_records(&self) {
    }
}

/// Creation succeeds exactly once per key: while the key is absent it
/// succeeds and appends the item, and afterwards any creation under the
/// same key is refused with `ItemAlreadyExists`, changing nothing.
pub proof fn lemma_create_succeeds_once<T: SoftDeletable>(s: Seq<T>, x: T, y: T)
    requires
        !has_id(s, x.spec_id()),
        y.spec_id() == x.spec_id(),
    ensures
        create_post(s, s.push(x), x, OperationResult::<T>::Success(None)),
        has_id(s.push(x), y.spec_id()),
        forall|post: Seq<T>, r: OperationResult<T>|
            #[trigger] create_post(s.push(x), post, y, r)
                ==> post == s.push(x) && r == OperationResult::<T>::ItemAlreadyExists,
{
    let s2 = s.push(x);
    assert(s2[s.len() as int].spec_id() == y.spec_id());
    assert(has_id(s2, y.spec_id()));
}

/// After a soft delete succeeds, the key answers point reads with
/// `ItemNotFound`, the scan of active records excludes it, and the listing
/// of deleted records includes it, attributed to the acting user.
pub proof fn lemma_soft_delete_hides<T: SoftDeletable>(
    s: Seq<T>,
    id: Seq<char>,
    user_id: String,
    now: String,
)
    requires
        ids_distinct(s),
        active_in(s, id),
    ensures
        ({
            let k = index_of_id(s, id);
            let s2 = s.update(k, stored(s, id).spec_with_tombstone(now, user_id));
            &&& soft_delete_post(s, s2, id, user_id, now, OperationResult::<T>::Success(None))
            &&& get_item_post(s2, id, OperationResult::<T>::ItemNotFound)
            &&& forall|j: int| 0 <= j < matching(s2, ScanFilter::Active).len()
                ==> (#[trigger] matching(s2, ScanFilter::Active)[j]).spec_id() != id
            &&& matching(s2, ScanFilter::Deleted).contains(s2[k])
            &&& s2[k].spec_id() == id
            &&& s2[k].spec_deleted_by() == Some(user_id@)
        }),
{
    let k = index_of_id(s, id);
    let marked = stored(s, id).spec_with_tombstone(now, user_id);
    stored(s, id).lemma_tombstone_fields(now, user_id);
    let s2 = s.update(k, marked);
    assert forall|p: int, q: int| 0 <= p < q < s2.len() implies
        s2[p].spec_id() != s2[q].spec_id() by {
        assert(s[p].spec_id() != s[q].spec_id());
    }
    lemma_index_of_id(s2, k);
    assert(!active_in(s2, id));
    lemma_matching_from(s2, ScanFilter::Active);
    assert forall|j: int| 0 <= j < matching(s2, ScanFilter::Active).len() implies
        (#[trigger] matching(s2, ScanFilter::Active)[j]).spec_id() != id by {
        let m = matching(s2, ScanFilter::Active);
        if m[j].spec_id() == id {
            let i = choose|i: int| 0 <= i < s2.len() && s2[i] == m[j];
            lemma_index_of_id(s2, i);
            assert(i == k);
            assert(!is_active(s2[k]));
        }
    }
    lemma_matching_contains(s2, ScanFilter::Deleted, k);
}

/// A tombstone is terminal: a second soft delete of the same key is
/// refused with `ItemNotFound` and changes nothing.
pub proof fn lemma_tombstone_is_terminal<T: SoftDeletable>(
    s: Seq<T>,
    id: Seq<char>,
    user_id: String,
    now: String,
    user_id2: String,
    now2: String,
)
    requires
        ids_distinct(s),
        active_in(s, id),
    ensures
        ({
            let s2 = s.update(
                index_of_id(s, id),
                stored(s, id).spec_with_tombstone(now, user_id),
            );
            &&& !active_in(s2, id)
            &&& soft_delete_post(s2, s2, id, user_id2, now2, OperationResult::<T>::ItemNotFound)
        }),
{
    let k = index_of_id(s, id);
    let marked = stored(s, id).spec_with_tombstone(now, user_id);
    stored(s, id).lemma_tombstone_fields(now, user_id);
    let s2 = s.update(k, marked);
    assert forall|p: int, q: int| 0 <= p < q < s2.len() implies
        s2[p].spec_id() != s2[q].spec_id() by {
        assert(s[p].spec_id() != s[q].spec_id());
    }
    lemma_index_of_id(s2, k);
}

/// An update of an absent or tombstoned key is refused with `ItemNotFound`
/// and changes nothing; an update of an active key succeeds, and a point
/// read then returns exactly the new item.
pub proof fn lemma_update_then_get<T: SoftDeletable>(s: Seq<T>, x: T)
    requires
        ids_distinct(s),
        is_active(x),
    ensures
        !active_in(s, x.spec_id())
            ==> update_post(s, s, x, OperationResult::<T>::ItemNotFound),
        active_in(s, x.spec_id()) ==> ({
            let s2 = s.update(index_of_id(s, x.spec_id()), x);
            &&& update_post(s, s2, x, OperationResult::<T>::Success(None))
            &&& get_item_post(s2, x.spec_id(), OperationResult::<T>::Success(Some(x)))
        }),
{
    if active_in(s, x.spec_id()) {
        let k = index_of_id(s, x.spec_id());
        let s2 = s.update(k, x);
        assert forall|p: int, q: int| 0 <= p < q < s2.len() implies
            s2[p].spec_id() != s2[q].spec_id() by {
            assert(s[p].spec_id() != s[q].spec_id());
        }
        lemma_index_of_id(s2, k);
    }
}

/// A scan is exact whatever the page boundaries were: among records with
/// distinct keys it returns no duplicates, only records passing the
/// filter, and every record passing the filter.
pub proof fn lemma_scan_exact<T: SoftDeletable>(s: Seq<T>, f: ScanFilter)
    requires
        ids_distinct(s),
    ensures
        ids_distinct(matching(s, f)),
        forall|j: int| 0 <= j < matching(s, f).len()
            ==> f.spec_matches(#[trigger] matching(s, f)[j]),
        forall|i: int| 0 <= i < s.len() && f.spec_matches(s[i])
            ==> matching(s, f).contains(#[trigger] s[i]),
{
    let m = matching(s, f);
    lemma_matching_from(s, f);
    assert forall|p: int, q: int| 0 <= p < q < m.len() implies
        m[p].spec_id() != m[q].spec_id() by {
        lemma_matching_distinct_step(s, f, p, q);
    }
    assert forall|i: int| 0 <= i < s.len() && f.spec_matches(s[i]) implies
        matching(s, f).contains(#[trigger] s[i]) by {
        lemma_matching_contains(s, f, i);
    }
}

/// Two distinct positions of the matching records come from two distinct
/// positions of the scanned records.
proof fn lemma_matching_distinct_step<T: SoftDeletable>(s: Seq<T>, f: ScanFilter, p: int, q: int)
    requires
        ids_distinct(s),
        0 <= p < q < matching(s, f).len(),
    ensures
        matching(s, f)[p].spec_id() != matching(s, f)[q].spec_id(),
    decreases s.len(),
{
    let m = matching(s, f);
    let rest = matching(s.drop_last(), f);
    assert(s.len() > 0);
    assert forall|p0: int, q0: int| 0 <= p0 < q0 < s.drop_last().len() implies
        s.drop_last()[p0].spec_id() != s.drop_last()[q0].spec_id() by {
        assert(s[p0].spec_id() != s[q0].spec_id());
    }
    if f.spec_matches(s.last()) && q == m.len() - 1 {
        lemma_matching_from(s.drop_last(), f);
        let i = choose|i: int| 0 <= i < s.drop_last().len() && s.drop_last()[i] == rest[p];
        assert(s[i].spec_id() != s[s.len() - 1].spec_id());
        assert(m[p] == rest[p]);
        assert(m[q] == s.last());
    } else {
        lemma_matching_distinct_step(s.drop_last(), f, p, q);
        assert(m[p] == rest[p]);
        assert(m[q] == rest[q]);
    }
}

} // verus!
