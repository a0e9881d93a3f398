//! An in-memory key-value store with atomic conditional writes and
//! cursor-paginated, filtered scans.
//!
//! The store emulates the contract the repository needs from its backing
//! document store: writes are guarded by server-evaluated conditions over
//! the current state of the addressed key, and scans hand out bounded pages
//! together with a continuation cursor.

use vstd::prelude::*;

use crate::db::SoftDeletable;

verus! {

/// No two records share a key.
pub open spec fn ids_distinct<T: SoftDeletable>(s: Seq<T>) -> bool {
    forall|i: int, j: int|
        0 <= i < j < s.len() ==> s[i].spec_id() != s[j].spec_id()
}

/// Some record carries the given key.
pub open spec fn has_id<T: SoftDeletable>(s: Seq<T>, id: Seq<char>) -> bool {
    exists|i: int| 0 <= i < s.len() && s[i].spec_id() == id
}

/// The position of the record with the given key.
pub open spec fn index_of_id<T: SoftDeletable>(s: Seq<T>, id: Seq<char>) -> int {
    choose|i: int| 0 <= i < s.len() && s[i].spec_id() == id
}

/// The record stored under the given key.
pub open spec fn stored<T: SoftDeletable>(s: Seq<T>, id: Seq<char>) -> T {
    s[index_of_id(s, id)]
}

/// A record is active while its deletion marker is absent.
pub open spec fn is_active<T: SoftDeletable>(t: T) -> bool {
    t.spec_deleted_at() is None
}

/// The given key holds an active record.
pub open spec fn active_in<T: SoftDeletable>(s: Seq<T>, id: Seq<char>) -> bool {
    has_id(s, id) && is_active(stored(s, id))
}

/// When keys are distinct, any position holding the key is the position of
/// the stored record.
pub proof fn lemma_index_of_id<T: SoftDeletable>(s: Seq<T>, i: int)
    requires
        ids_distinct(s),
        0 <= i < s.len(),
    ensures
        has_id(s, s[i].spec_id()),
        index_of_id(s, s[i].spec_id()) == i,
        stored(s, s[i].spec_id()) == s[i],
{
    let id = s[i].spec_id();
    assert(has_id(s, id));
    let j = index_of_id(s, id);
    if i < j {
        assert(s[i].spec_id() != s[j].spec_id());
    } else if j < i {
        assert(s[j].spec_id() != s[i].spec_id());
    }
}

/// The server-side filter of a scan.
pub enum ScanFilter {
    /// Keep the active records.
    Active,
    /// Keep the tombstoned records.
    Deleted,
    /// Keep the tombstoned records deleted by the given user.
    DeletedBy(String),
}

impl ScanFilter {
    /// Whether a record passes the filter.
    pub open spec fn spec_matches<T: SoftDeletable>(self, t: T) -> bool {
        match self {
            ScanFilter::Active => t.spec_deleted_at() is None,
            ScanFilter::Deleted => t.spec_deleted_at() is Some,
            ScanFilter::DeletedBy(user) => t.spec_deleted_at() is Some
                && t.spec_deleted_by() == Some(user@),
        }
    }

    /// Evaluates the filter on a record.
    pub fn matches<T: SoftDeletable>(&self, t: &T) -> (r: bool)
        ensures
            r == self.spec_matches(*t),
    {
        match self {
            ScanFilter::Active => t.get_deleted_at().is_none(),
            ScanFilter::Deleted => t.get_deleted_at().is_some(),
            ScanFilter::DeletedBy(user) => {
                if t.get_deleted_at().is_some() {
                    match t.get_deleted_by() {
                        Some(b) => *b == *user,
                        None => false,
                    }
                } else {
                    false
                }
            },
        }
    }
}

/// The records of a sequence that pass a filter, in their stored order.
pub open spec fn matching<T: SoftDeletable>(s: Seq<T>, f: ScanFilter) -> Seq<T>
    decreases s.len(),
{
    if s.len() == 0 {
        Seq::empty()
    } else {
        let rest = matching(s.drop_last(), f);
        if f.spec_matches(s.last()) {
            rest.push(s.last())
        } else {
            rest
        }
    }
}

/// Extending a sequence by one record extends its matching records by that
/// record exactly when it passes the filter.
pub proof fn lemma_matching_push<T: SoftDeletable>(s: Seq<T>, f: ScanFilter, x: T)
    ensures
        matching(s.push(x), f) == if f.spec_matches(x) {
            matching(s, f).push(x)
        } else {
            matching(s, f)
        },
{
    assert(s.push(x).drop_last() =~= s);
    assert(s.push(x).last() == x);
}

/// Matching records split over concatenation.
pub proof fn lemma_matching_add<T: SoftDeletable>(a: Seq<T>, b: Seq<T>, f: ScanFilter)
    ensures
        matching(a + b, f) == matching(a, f) + matching(b, f),
    decreases b.len(),
{
    if b.len() == 0 {
        assert(a + b =~= a);
        assert(matching(a, f) + matching(b, f) =~= matching(a, f));
    } else {
        lemma_matching_add(a, b.drop_last(), f);
        assert((a + b).drop_last() =~= a + b.drop_last());
        assert((a + b).last() == b.last());
        if f.spec_matches(b.last()) {
            assert(matching(a, f) + matching(b.drop_last(), f).push(b.last())
                =~= (matching(a, f) + matching(b.drop_last(), f)).push(b.last()));
        }
    }
}

/// Every matching record passes the filter and comes from the sequence.
pub proof fn lemma_matching_from<T: SoftDeletable>(s: Seq<T>, f: ScanFilter)
    ensures
        forall|j: int| 0 <= j < matching(s, f).len()
            ==> f.spec_matches(#[trigger] matching(s, f)[j]),
        forall|j: int| 0 <= j < matching(s, f).len()
            ==> exists|i: int| 0 <= i < s.len() && s[i] == #[trigger] matching(s, f)[j],
    decreases s.len(),
{
    if s.len() > 0 {
        lemma_matching_from(s.drop_last(), f);
        let m = matching(s, f);
        let rest = matching(s.drop_last(), f);
        assert forall|j: int| 0 <= j < m.len() implies f.spec_matches(#[trigger] m[j])
            && exists|i: int| 0 <= i < s.len() && s[i] == m[j] by {
            if f.spec_matches(s.last()) && j == m.len() - 1 {
                assert(s[s.len() - 1] == m[j]);
            } else {
                assert(m[j] == rest[j]);
                let i = choose|i: int| 0 <= i < s.drop_last().len() && s.drop_last()[i] == rest[j];
                assert(s[i] == m[j]);
            }
        }
    }
}

/// A record that passes the filter appears among the matching records.
pub proof fn lemma_matching_contains<T: SoftDeletable>(s: Seq<T>, f: ScanFilter, i: int)
    requires
        0 <= i < s.len(),
        f.spec_matches(s[i]),
    ensures
        matching(s, f).contains(s[i]),
    decreases s.len(),
{
    if i == s.len() - 1 {
        let m = matching(s, f);
        assert(m[m.len() - 1] == s[i]);
    } else {
        lemma_matching_contains(s.drop_last(), f, i);
        let rest = matching(s.drop_last(), f);
        let j = choose|j: int| 0 <= j < rest.len() && rest[j] == s.drop_last()[i];
        assert(matching(s, f)[j] == s[i]);
    }
}

/// The in-memory conditional-write store: a sequence of records with
/// distinct keys, scanned in pages of a fixed size.
pub struct MemoryStore<T> {
    records: Vec<T>,
    page_size: usize,
}

impl<T: SoftDeletable> View for MemoryStore<T> {
    type V = Seq<T>;

    closed spec fn view(&self) -> Seq<T> {
        self.records@
    }
}

/// Where a page starting at the cursor ends.
pub open spec fn page_end(cursor: int, page: int, len: int) -> int {
    if cursor + page <= len {
        cursor + page
    } else {
        len
    }
}

impl<T: SoftDeletable> MemoryStore<T> {
    /// How many records a scan page holds at most.
    pub closed spec fn spec_page_size(&self) -> int {
        self.page_size as int
    }

    /// The store's invariant: keys are distinct and pages are not empty.
    pub open spec fn wf(&self) -> bool {
        ids_distinct(self@) && self.spec_page_size() >= 1
    }

    /// An empty store.
    pub fn new(page_size: usize) -> (r: MemoryStore<T>)
        requires
            page_size >= 1,
        ensures
            r@ == Seq::<T>::empty(),
            r.spec_page_size() == page_size,
            r.wf(),
    {
        MemoryStore { records: Vec::new(), page_size }
    }

    /// The position of the record with the given key, if any.
    fn find_index(&self, id: &String) -> (r: Option<usize>)
        requires
            self.wf(),
        ensures
            match r {
                Some(i) => i < self@.len() && self@[i as int].spec_id() == id@
                    && index_of_id(self@, id@) == i && has_id(self@, id@),
                None => !has_id(self@, id@),
            },
    {
        let n = self.records.len();
        let mut i: usize = 0;
        while i < n
            invariant
                n == self@.len(),
                i <= n,
                self.wf(),
                forall|j: int| 0 <= j < i ==> self@[j].spec_id() != id@,
            decreases n - i,
        {
            if *self.records[i].get_id() == *id {
                proof {
                    lemma_index_of_id(self@, i as int);
                }
                return Some(i);
            }
            i = i + 1;
        }
        return None;
    }

    /// A point read: the record stored under the key, whatever its state.
    pub fn get(&self, id: &String) -> (r: Option<T>)
        requires
            self.wf(),
        ensures
            match r {
                Some(t) => has_id(self@, id@) && t == stored(self@, id@),
                None => !has_id(self@, id@),
            },
    {
        match self.find_index(id) {
            Some(i) => Some(self.records[i].duplicate()),
            None => None,
        }
    }

    /// A conditional put that requires the key to be absent.
    pub fn put_if_absent(&mut self, record: T) -> (r: bool)
        requires
            old(self).wf(),
        ensures
            final(self).wf(),
            final(self).spec_page_size() == old(self).spec_page_size(),
            r == !has_id(old(self)@, record.spec_id()),
            r ==> final(self)@ == old(self)@.push(record),
            !r ==> final(self)@ == old(self)@,
    {
        match self.find_index(record.get_id()) {
            Some(_) => false,
            None => {
                self.records.push(record);
                proof {
                    assert forall|i: int, j: int|
                        0 <= i < j < self@.len() implies
                        self@[i].spec_id() != self@[j].spec_id() by {
                        if j < self@.len() - 1 {
                            assert(old(self)@[i].spec_id() != old(self)@[j].spec_id());
                        } else {
                            assert(!has_id(old(self)@, record.spec_id()));
                            assert(self@[i] == old(self)@[i]);
                        }
                    }
                }
                true
            },
        }
    }

    /// A conditional put that requires the key to hold an active record;
    /// the stored record is replaced whole.
    pub fn put_if_active(&mut self, record: T) -> (r: bool)
        requires
            old(self).wf(),
        ensures
            final(self).wf(),
            final(self).spec_page_size() == old(self).spec_page_size(),
            r == active_in(old(self)@, record.spec_id()),
            r ==> final(self)@
                == old(self)@.update(index_of_id(old(self)@, record.spec_id()), record),
            !r ==> final(self)@ == old(self)@,
    {
        match self.find_index(record.get_id()) {
            Some(i) => {
                if self.records[i].get_deleted_at().is_none() {
                    self.records[i] = record;
                    proof {
                        assert forall|p: int, q: int|
                            0 <= p < q < self@.len() implies
                            self@[p].spec_id() != self@[q].spec_id() by {
                            assert(old(self)@[p].spec_id() != old(self)@[q].spec_id());
                        }
                    }
                    true
                } else {
                    false
                }
            },
            None => false,
        }
    }

    /// An unconditional delete; removing an absent key is a no-op.
    pub fn delete(&mut self, id: &String) -> (r: bool)
        requires
            old(self).wf(),
        ensures
            final(self).wf(),
            final(self).spec_page_size() == old(self).spec_page_size(),
            r == has_id(old(self)@, id@),
            r ==> final(self)@ == old(self)@.remove(index_of_id(old(self)@, id@)),
            !r ==> final(self)@ == old(self)@,
    {
        match self.find_index(id) {
            Some(i) => {
                self.records.remove(i);
                proof {
                    let pre = old(self)@;
                    let k = i as int;
                    assert forall|p: int, q: int|
                        0 <= p < q < self@.len() implies
                        self@[p].spec_id() != self@[q].spec_id() by {
                        let p0: int = if p < k { p } else { p + 1 };
                        let q0: int = if q < k { q } else { q + 1 };
                        assert(self@[p] == pre[p0]);
                        assert(self@[q] == pre[q0]);
                        assert(pre[p0].spec_id() != pre[q0].spec_id());
                    }
                }
                true
            },
            None => false,
        }
    }

    /// A conditional update that requires the key to hold an active record
    /// and sets its two deletion markers, keeping every other field.
    pub fn tombstone_if_active(&mut self, id: &String, deleted_at: &String, deleted_by: &String)
        -> (r: bool)
        requires
            old(self).wf(),
        ensures
            final(self).wf(),
            final(self).spec_page_size() == old(self).spec_page_size(),
            r == active_in(old(self)@, id@),
            r ==> final(self)@ == old(self)@.update(
                index_of_id(old(self)@, id@),
                stored(old(self)@, id@).spec_with_tombstone(*deleted_at, *deleted_by),
            ),
            !r ==> final(self)@ == old(self)@,
    {
        match self.find_index(id) {
            Some(i) => {
                if self.records[i].get_deleted_at().is_none() {
                    let marked = self.records[i].with_tombstone(deleted_at, deleted_by);
                    proof {
                        old(self)@[i as int].lemma_tombstone_fields(*deleted_at, *deleted_by);
                    }
                    self.records[i] = marked;
                    proof {
                        assert forall|p: int, q: int|
                            0 <= p < q < self@.len() implies
                            self@[p].spec_id() != self@[q].spec_id() by {
                            assert(old(self)@[p].spec_id() != old(self)@[q].spec_id());
                        }
                    }
                    true
                } else {
                    false
                }
            },
            None => false,
        }
    }

    /// One page of a filtered scan: the matching records among the page of
    /// records that starts at the cursor, and the cursor of the next page,
    /// absent when the store is exhausted.
    pub fn scan_page(&self, filter: &ScanFilter, cursor: usize) -> (r: (Vec<T>, Option<usize>))
        requires
            self.wf(),
            cursor <= self@.len(),
        ensures
            r.0@ == matching(
                self@.subrange(cursor as int, page_end(cursor as int, self.spec_page_size(), self@.len() as int)),
                *filter,
            ),
            match r.1 {
                Some(n) => n == page_end(cursor as int, self.spec_page_size(), self@.len() as int)
                    && n < self@.len(),
                None => page_end(cursor as int, self.spec_page_size(), self@.len() as int)
                    == self@.len(),
            },
    {
        let n = self.records.len();
        let end = if n - cursor >= self.page_size {
            cursor + self.page_size
        } else {
            n
        };
        let mut page: Vec<T> = Vec::new();
        let mut i = cursor;
        while i < end
            invariant
                cursor <= i <= end <= n,
                n == self@.len(),
                self.wf(),
                end == page_end(cursor as int, self.spec_page_size(), self@.len() as int),
                page@ == matching(self@.subrange(cursor as int, i as int), *filter),
            decreases end - i,
        {
            let record = &self.records[i];
            proof {
                assert(self@.subrange(cursor as int, i + 1)
                    =~= self@.subrange(cursor as int, i as int).push(self@[i as int]));
                lemma_matching_push(self@.subrange(cursor as int, i as int), *filter, self@[i as int]);
            }
            if filter.matches(record) {
                page.push(record.duplicate());
            }
            i = i + 1;
        }
        if end < n {
            (page, Some(end))
        } else {
            (page, None)
        }
    }
}

} // verus!
