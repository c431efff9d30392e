//! The record store: the table of test records, held in memory, newest
//! first. It owns the rules the persisted table lives by: identifiers are
//! unique, records stand sorted by creation time descending, and a record
//! is never created after it was last updated.

use vstd::prelude::*;
use vstd::pervasive::VecAdditionalExecFns;

use crate::models::{ApiError, CreateTestRequest, RecordModel, Test, UpdateTestRequest};
use crate::models::opt_text;

verus! {

/// The abstract values of a sequence of records.
pub open spec fn views_of(s: Seq<Test>) -> Seq<RecordModel> {
    s.map_values(|t: Test| t@)
}

/// Whether some record in `s` carries the identifier `id`.
pub open spec fn contains_id(s: Seq<RecordModel>, id: u128) -> bool {
    exists|i: int| 0 <= i < s.len() && s[i].id == id
}

/// The index of the record carrying `id` (meaningful when `contains_id`
/// holds and identifiers are unique).
pub open spec fn idx_of(s: Seq<RecordModel>, id: u128) -> int {
    choose|i: int| 0 <= i < s.len() && s[i].id == id
}

/// The record carrying `id`.
pub open spec fn record_of(s: Seq<RecordModel>, id: u128) -> RecordModel {
    s[idx_of(s, id)]
}

/// No two records share an identifier.
pub open spec fn unique_ids(s: Seq<RecordModel>) -> bool {
    forall|i: int, j: int| 0 <= i < j < s.len() ==> s[i].id != s[j].id
}

/// Creation times never increase along the sequence: the newest record
/// stands first.
pub open spec fn newest_first(s: Seq<RecordModel>) -> bool {
    forall|i: int, j: int| 0 <= i < j < s.len() ==> s[i].created_at >= s[j].created_at
}

/// No record was created after it was last updated.
pub open spec fn stamps_ordered(s: Seq<RecordModel>) -> bool {
    forall|i: int| 0 <= i < s.len() ==> s[i].created_at <= s[i].updated_at
}

/// The store's invariant over its abstract contents.
pub open spec fn store_inv(s: Seq<RecordModel>) -> bool {
    unique_ids(s) && newest_first(s) && stamps_ordered(s)
}

/// The record a successful create inserts: both timestamps set to `now`.
pub open spec fn new_model(
    id: u128,
    title: Seq<char>,
    content: Option<Seq<char>>,
    now: int,
) -> RecordModel {
    RecordModel { id, title, content, created_at: now, updated_at: now }
}

/// Where a record created at `now` belongs: before the first record that
/// is no newer than it.
pub open spec fn insert_pos(s: Seq<RecordModel>, now: int) -> int
    decreases s.len(),
{
    if s.len() == 0 {
        0
    } else if s[0].created_at <= now {
        0
    } else {
        1 + insert_pos(s.skip(1), now)
    }
}

/// The record a successful update leaves behind: present payload fields
/// overwrite, absent ones keep the stored value, `updated_at` moves to
/// `now` (and never backwards, should the clock have regressed).
pub open spec fn updated_model(
    r: RecordModel,
    title: Option<Seq<char>>,
    content: Option<Seq<char>>,
    now: int,
) -> RecordModel {
    RecordModel {
        id: r.id,
        title: match title {
            Some(t) => t,
            None => r.title,
        },
        content: match content {
            Some(c) => Some(c),
            None => r.content,
        },
        created_at: r.created_at,
        updated_at: if now >= r.updated_at {
            now
        } else {
            r.updated_at
        },
    }
}

/// The table of test records. The connection-pool handle of a live server
/// corresponds to one shared value of this type.
pub struct Store {
    records: Vec<Test>,
}

impl View for Store {
    type V = Seq<RecordModel>;

    closed spec fn view(&self) -> Seq<RecordModel> {
        views_of(self.records@)
    }
}

impl Store {
    /// Whether the store's invariant holds.
    pub open spec fn wf(&self) -> bool {
        store_inv(self@)
    }

    /// An empty store.
    pub fn new() -> (s: Store)
        ensures
            s.wf(),
            s@ == Seq::<RecordModel>::empty(),
    {
        let s = Store { records: Vec::new() };
        proof {
            assert(s@ =~= Seq::<RecordModel>::empty());
        }
        s
    }

    /// The index of the record carrying `id`, if any.
    fn find(&self, id: u128) -> (r: Option<usize>)
        ensures
            match r {
                Some(i) => 0 <= i < self@.len() && self@[i as int].id == id,
                None => !contains_id(self@, id),
            },
    {
        let n = self.records.len();
        let mut i: usize = 0;
        while i < n
            invariant
                n == self.records.len(),
                i <= n,
                self@.len() == n,
                forall|j: int| 0 <= j < i ==> self@[j].id != id,
            decreases n - i,
        {
            if self.records[i].id == id {
                return Some(i);
            }
            i = i + 1;
        }
        None
    }

    /// Exactly one record or not-found; no side effects.
    pub fn get(&self, id: u128) -> (r: Result<Test, ApiError>)
        requires
            self.wf(),
        ensures
            match r {
                Ok(t) => contains_id(self@, id) && t@ == record_of(self@, id),
                Err(e) => e == ApiError::NotFound && !contains_id(self@, id),
            },
    {
        match self.find(id) {
            Some(i) => {
                let t = self.records[i].duplicate();
                proof {
                    lemma_found_is_the_record(self@, id, i as int);
                }
                Ok(t)
            },
            None => Err(ApiError::NotFound),
        }
    }

    /// All records, newest first (the order the store maintains).
    pub fn list(&self) -> (r: Vec<Test>)
        ensures
            views_of(r@) == self@,
    {
        let n = self.records.len();
        let mut out: Vec<Test> = Vec::new();
        let mut i: usize = 0;
        while i < n
            invariant
                n == self.records.len(),
                i <= n,
                self@.len() == n,
                out@.len() == i,
                forall|j: int| 0 <= j < i ==> (#[trigger] out@[j])@ == self@[j],
            decreases n - i,
        {
            out.push(self.records[i].duplicate());
            i = i + 1;
        }
        proof {
            assert forall|j: int| 0 <= j < out@.len() implies #[trigger] views_of(out@)[j]
                == self@[j] by {
                assert(views_of(out@)[j] == out@[j]@);
            }
            assert(views_of(out@) =~= self@);
        }
        out
    }

    /// Inserts a new record carrying `id`, the payload's title and content,
    /// and both timestamps set to `now`, keeping the newest-first order. A
    /// colliding identifier is a store-level failure and changes nothing.
    pub fn create(&mut self, id: u128, now: i64, req: CreateTestRequest) -> (r: Result<
        Test,
        ApiError,
    >)
        requires
            old(self).wf(),
        ensures
            final(self).wf(),
            match r {
                Ok(t) => {
                    &&& !contains_id(old(self)@, id)
                    &&& t@ == new_model(id, req.title@, opt_text(req.content), now as int)
                    &&& final(self)@ == old(self)@.insert(insert_pos(old(self)@, now as int), t@)
                },
                Err(e) => {
                    &&& e == ApiError::Internal
                    &&& contains_id(old(self)@, id)
                    &&& final(self)@ == old(self)@
                },
            },
    {
        match self.find(id) {
            Some(_) => Err(ApiError::Internal),
            None => {
                let ghost s0 = self@;
                let n = self.records.len();
                let mut pos: usize = 0;
                while pos < n && self.records[pos].created_at > now
                    invariant
                        n == self.records.len(),
                        self@.len() == n,
                        pos <= n,
                        forall|j: int| 0 <= j < pos ==> self@[j].created_at > now as int,
                    decreases n - pos,
                {
                    pos = pos + 1;
                }
                let t = Test {
                    id,
                    title: req.title,
                    content: req.content,
                    created_at: now,
                    updated_at: now,
                };
                let ret = t.duplicate();
                proof {
                    lemma_insert_pos_unique(s0, now as int, pos as int);
                    lemma_views_of_insert(self.records@, pos as int, t);
                    lemma_create_preserves_inv(s0, id, t@.title, t@.content, now as int);
                }
                self.records.insert(pos, t);
                Ok(ret)
            },
        }
    }

    /// Overwrites the stored record's title and content with the payload's
    /// present fields, keeps its absent ones, and moves `updated_at` to
    /// `now`; or signals not-found and changes nothing.
    pub fn update(&mut self, id: u128, now: i64, req: UpdateTestRequest) -> (r: Result<
        Test,
        ApiError,
    >)
        requires
            old(self).wf(),
        ensures
            final(self).wf(),
            match r {
                Ok(t) => {
                    &&& contains_id(old(self)@, id)
                    &&& t@ == updated_model(
                        record_of(old(self)@, id),
                        opt_text(req.title),
                        opt_text(req.content),
                        now as int,
                    )
                    &&& final(self)@ == old(self)@.update(idx_of(old(self)@, id), t@)
                },
                Err(e) => {
                    &&& e == ApiError::NotFound
                    &&& !contains_id(old(self)@, id)
                    &&& final(self)@ == old(self)@
                },
            },
    {
        let ghost s0 = self@;
        match self.find(id) {
            None => Err(ApiError::NotFound),
            Some(i) => {
                proof {
                    lemma_found_is_the_record(s0, id, i as int);
                }
                let new_title: String = match req.title {
                    Some(tt) => tt,
                    None => self.records[i].title.clone(),
                };
                let new_content: Option<String> = match req.content {
                    Some(c) => Some(c),
                    None => match &self.records[i].content {
                        Some(c) => Some(c.clone()),
                        None => None,
                    },
                };
                let new_updated: i64 = if now >= self.records[i].updated_at {
                    now
                } else {
                    self.records[i].updated_at
                };
                let t = Test {
                    id,
                    title: new_title,
                    content: new_content,
                    created_at: self.records[i].created_at,
                    updated_at: new_updated,
                };
                let ret = t.duplicate();
                proof {
                    lemma_views_of_update(self.records@, i as int, t);
                    lemma_update_preserves_inv(s0, i as int, t@);
                }
                self.records.set(i, t);
                Ok(ret)
            },
        }
    }

    /// Removes the record carrying `id` for good, or signals not-found; a
    /// second delete of the same identifier therefore signals not-found.
    pub fn delete(&mut self, id: u128) -> (r: Result<(), ApiError>)
        requires
            old(self).wf(),
        ensures
            final(self).wf(),
            match r {
                Ok(u) => {
                    &&& contains_id(old(self)@, id)
                    &&& final(self)@ == old(self)@.remove(idx_of(old(self)@, id))
                    &&& !contains_id(final(self)@, id)
                },
                Err(e) => {
                    &&& e == ApiError::NotFound
                    &&& !contains_id(old(self)@, id)
                    &&& final(self)@ == old(self)@
                },
            },
    {
        let ghost s0 = self@;
        match self.find(id) {
            None => Err(ApiError::NotFound),
            Some(i) => {
                proof {
                    lemma_found_is_the_record(s0, id, i as int);
                    lemma_views_of_remove(self.records@, i as int);
                    lemma_remove_preserves_inv(s0, id);
                }
                self.records.remove(i);
                Ok(())
            },
        }
    }
}

/// Mapping to abstract values commutes with insertion.
proof fn lemma_views_of_insert(s: Seq<Test>, i: int, t: Test)
    requires
        0 <= i <= s.len(),
    ensures
        views_of(s.insert(i, t)) == views_of(s).insert(i, t@),
{
    s.insert_ensures(i, t);
    views_of(s).insert_ensures(i, t@);
    assert forall|j: int| 0 <= j < s.len() + 1 implies #[trigger] views_of(s.insert(i, t))[j]
        == views_of(s).insert(i, t@)[j] by {
        if j < i {
            assert(s.insert(i, t)[j] == s[j]);
        } else if j == i {
            assert(s.insert(i, t)[j] == t);
        } else {
            assert(s.insert(i, t)[(j - 1) + 1] == s[j - 1]);
            assert(views_of(s).insert(i, t@)[(j - 1) + 1] == views_of(s)[j - 1]);
        }
    }
    assert(views_of(s.insert(i, t)) =~= views_of(s).insert(i, t@));
}

/// Mapping to abstract values commutes with replacing one element.
proof fn lemma_views_of_update(s: Seq<Test>, i: int, t: Test)
    requires
        0 <= i < s.len(),
    ensures
        views_of(s.update(i, t)) == views_of(s).update(i, t@),
{
    assert forall|j: int| 0 <= j < s.len() implies #[trigger] views_of(s.update(i, t))[j]
        == views_of(s).update(i, t@)[j] by {
        if j == i {
            assert(s.update(i, t)[j] == t);
        } else {
            assert(s.update(i, t)[j] == s[j]);
        }
    }
    assert(views_of(s.update(i, t)) =~= views_of(s).update(i, t@));
}

/// Mapping to abstract values commutes with removal.
proof fn lemma_views_of_remove(s: Seq<Test>, i: int)
    requires
        0 <= i < s.len(),
    ensures
        views_of(s.remove(i)) == views_of(s).remove(i),
{
    s.remove_ensures(i);
    views_of(s).remove_ensures(i);
    assert forall|j: int| 0 <= j < s.len() - 1 implies #[trigger] views_of(s.remove(i))[j]
        == views_of(s).remove(i)[j] by {
        if j < i {
            assert(s.remove(i)[j] == s[j]);
        } else {
            assert(s.remove(i)[j] == s[j + 1]);
            assert(views_of(s).remove(i)[j] == views_of(s)[j + 1]);
        }
    }
    assert(views_of(s.remove(i)) =~= views_of(s).remove(i));
}

/// `insert_pos` lies within bounds; everything before it is newer than
/// `now`, and the record at it (if any) is not.
pub proof fn lemma_insert_pos_properties(s: Seq<RecordModel>, now: int)
    ensures
        0 <= insert_pos(s, now) <= s.len(),
        forall|j: int| 0 <= j < insert_pos(s, now) ==> s[j].created_at > now,
        insert_pos(s, now) < s.len() ==> s[insert_pos(s, now)].created_at <= now,
    decreases s.len(),
{
    if s.len() == 0 {
    } else if s[0].created_at <= now {
    } else {
        lemma_insert_pos_properties(s.skip(1), now);
        let p = insert_pos(s, now);
        assert forall|j: int| 0 <= j < p implies s[j].created_at > now by {
            if j > 0 {
                assert(s.skip(1)[j - 1] == s[j]);
            }
        }
        if p < s.len() {
            assert(s.skip(1)[p - 1] == s[p]);
        }
    }
}

/// An index with everything newer than `now` before it and nothing newer
/// at it is exactly `insert_pos`.
proof fn lemma_insert_pos_unique(s: Seq<RecordModel>, now: int, i: int)
    requires
        0 <= i <= s.len(),
        forall|j: int| 0 <= j < i ==> s[j].created_at > now,
        i < s.len() ==> s[i].created_at <= now,
    ensures
        insert_pos(s, now) == i,
    decreases s.len(),
{
    if s.len() == 0 {
    } else if s[0].created_at <= now {
        if i > 0 {
            assert(s[0].created_at > now);
        }
    } else {
        assert(i >= 1) by {
            if i == 0 {
                assert(s[0].created_at <= now);
            }
        }
        assert forall|j: int| 0 <= j < i - 1 implies s.skip(1)[j].created_at > now by {
            assert(s.skip(1)[j] == s[j + 1]);
        }
        if i - 1 < s.len() - 1 {
            assert(s.skip(1)[i - 1] == s[i]);
        }
        lemma_insert_pos_unique(s.skip(1), now, i - 1);
    }
}

/// Inserting a fresh record at `insert_pos` keeps the store's invariant,
/// and the new record is then the one its identifier finds.
pub proof fn lemma_create_preserves_inv(
    s: Seq<RecordModel>,
    id: u128,
    title: Seq<char>,
    content: Option<Seq<char>>,
    now: int,
)
    requires
        store_inv(s),
        !contains_id(s, id),
    ensures
        ({
            let t = new_model(id, title, content, now);
            let s2 = s.insert(insert_pos(s, now), t);
            &&& store_inv(s2)
            &&& contains_id(s2, id)
            &&& idx_of(s2, id) == insert_pos(s, now)
            &&& record_of(s2, id) == t
        }),
{
    lemma_insert_pos_properties(s, now);
    let p = insert_pos(s, now);
    let t = new_model(id, title, content, now);
    let s2 = s.insert(p, t);
    s.insert_ensures(p, t);
    assert forall|j: int| 0 <= j < s2.len() implies #[trigger] s2[j] == (if j < p {
        s[j]
    } else if j == p {
        t
    } else {
        s[j - 1]
    }) by {
        if j > p {
            assert(s.insert(p, t)[(j - 1) + 1] == s[j - 1]);
        }
    }
    assert forall|i: int, j: int| 0 <= i < j < s2.len() implies s2[i].id != s2[j].id by {
        if i == p {
            assert(s2[j] == s[j - 1] && s[j - 1].id != id);
        } else if j == p {
            assert(s2[i] == s[i] && s[i].id != id);
        }
    }
    assert forall|i: int, j: int| 0 <= i < j < s2.len() implies s2[i].created_at
        >= s2[j].created_at by {
        if i < p && j > p {
            assert(s[j - 1].created_at <= now) by {
                if p < s.len() && p < j - 1 {
                    assert(s[p].created_at >= s[j - 1].created_at);
                }
            }
        } else if i == p && j > p {
            assert(s[j - 1].created_at <= now) by {
                if p < j - 1 {
                    assert(s[p].created_at >= s[j - 1].created_at);
                }
            }
        }
    }
    assert(store_inv(s2));
    assert(contains_id(s2, id)) by {
        assert(s2[p].id == id);
    }
    lemma_found_is_the_record(s2, id, p);
}

/// Replacing a record with its updated value keeps the store's invariant,
/// and the updated record is then the one its identifier finds.
pub proof fn lemma_update_preserves_inv(s: Seq<RecordModel>, k: int, t: RecordModel)
    requires
        store_inv(s),
        0 <= k < s.len(),
        t.id == s[k].id,
        t.created_at == s[k].created_at,
        t.created_at <= t.updated_at,
    ensures
        store_inv(s.update(k, t)),
        contains_id(s.update(k, t), t.id),
        idx_of(s.update(k, t), t.id) == k,
        record_of(s.update(k, t), t.id) == t,
{
    let s2 = s.update(k, t);
    assert(forall|j: int| 0 <= j < s2.len() ==> s2[j].id == s[j].id);
    assert(forall|j: int| 0 <= j < s2.len() ==> s2[j].created_at == s[j].created_at);
    assert(store_inv(s2));
    lemma_found_is_the_record(s2, t.id, k);
}

/// Removing the record an identifier finds keeps the store's invariant and
/// leaves no record with that identifier behind.
pub proof fn lemma_remove_preserves_inv(s: Seq<RecordModel>, id: u128)
    requires
        store_inv(s),
        contains_id(s, id),
    ensures
        store_inv(s.remove(idx_of(s, id))),
        !contains_id(s.remove(idx_of(s, id)), id),
{
    let k = idx_of(s, id);
    let s2 = s.remove(k);
    s.remove_ensures(k);
    assert forall|j: int| 0 <= j < s2.len() implies #[trigger] s2[j] == (if j < k {
        s[j]
    } else {
        s[j + 1]
    }) by {}
    assert forall|i: int, j: int| 0 <= i < j < s2.len() implies s2[i].id != s2[j].id
        && s2[i].created_at >= s2[j].created_at by {
        let i0 = if i < k {
            i
        } else {
            i + 1
        };
        let j0 = if j < k {
            j
        } else {
            j + 1
        };
        assert(s2[i] == s[i0] && s2[j] == s[j0] && i0 < j0);
    }
    assert(store_inv(s2));
    assert forall|j: int| 0 <= j < s2.len() implies s2[j].id != id by {
        let j0 = if j < k {
            j
        } else {
            j + 1
        };
        assert(s2[j] == s[j0] && j0 != k);
        if j0 < k {
            assert(s[j0].id != s[k].id);
        } else {
            assert(s[k].id != s[j0].id);
        }
    }
}

/// In a sequence with unique identifiers, an index holding `id` is the
/// index `idx_of` picks, so the record there is `record_of`.
pub proof fn lemma_found_is_the_record(s: Seq<RecordModel>, id: u128, i: int)
    requires
        unique_ids(s),
        0 <= i < s.len(),
        s[i].id == id,
    ensures
        contains_id(s, id),
        idx_of(s, id) == i,
        record_of(s, id) == s[i],
{
    assert(contains_id(s, id));
    let j = idx_of(s, id);
    assert(0 <= j < s.len() && s[j].id == id);
    if i != j {
        assert(s[i].id != s[j].id);
    }
}

} // verus!
