//! The properties the store stands for, each stated over the abstract
//! model and proved once and for all.

use vstd::prelude::*;

use crate::models::RecordModel;
use crate::store::{
    contains_id, idx_of, insert_pos, lemma_create_preserves_inv, lemma_remove_preserves_inv,
    new_model, record_of, store_inv, updated_model,
};

verus! {

/// Identifiers are unique across the table: in a well-formed store, two
/// distinct positions never carry the same identifier.
pub proof fn lemma_ids_unique(s: Seq<RecordModel>, i: int, j: int)
    requires
        store_inv(s),
        0 <= i < s.len(),
        0 <= j < s.len(),
        i != j,
    ensures
        s[i].id != s[j].id,
{
    if i < j {
        assert(s[i].id != s[j].id);
    } else {
        assert(s[j].id != s[i].id);
    }
}

/// Identifiers are stable: an update, whatever its payload and whenever it
/// runs, never changes a record's identifier (nor its creation time).
pub proof fn lemma_update_keeps_identity(
    r: RecordModel,
    title: Option<Seq<char>>,
    content: Option<Seq<char>>,
    now: int,
)
    ensures
        updated_model(r, title, content, now).id == r.id,
        updated_model(r, title, content, now).created_at == r.created_at,
{
}

/// Round trip: after a create, the new identifier finds a record with
/// exactly the payload's title and content, and with `created_at` equal
/// to `updated_at`.
pub proof fn lemma_create_then_get(
    s: Seq<RecordModel>,
    id: u128,
    title: Seq<char>,
    content: Option<Seq<char>>,
    now: int,
)
    requires
        store_inv(s),
        !contains_id(s, id),
    ensures
        ({
            let s2 = s.insert(insert_pos(s, now), new_model(id, title, content, now));
            &&& contains_id(s2, id)
            &&& record_of(s2, id).title == title
            &&& record_of(s2, id).content == content
            &&& record_of(s2, id).created_at == record_of(s2, id).updated_at
        }),
{
    lemma_create_preserves_inv(s, id, title, content, now);
}

/// Updating twice with the same payload yields the same title and content
/// both times, while `updated_at` never goes back, and strictly advances
/// whenever the clock has moved past the first update.
pub proof fn lemma_update_idempotent(
    r: RecordModel,
    title: Option<Seq<char>>,
    content: Option<Seq<char>>,
    n1: int,
    n2: int,
)
    ensures
        ({
            let r1 = updated_model(r, title, content, n1);
            let r2 = updated_model(r1, title, content, n2);
            &&& r2.title == r1.title
            &&& r2.content == r1.content
            &&& r2.updated_at >= r1.updated_at
            &&& n2 > r1.updated_at ==> r2.updated_at > r1.updated_at
        }),
{
}

/// A partial update never nulls an omitted field: updating only the
/// content leaves the title as it was, and the other way round.
pub proof fn lemma_partial_update_keeps_absent(
    r: RecordModel,
    title: Option<Seq<char>>,
    content: Option<Seq<char>>,
    now: int,
)
    ensures
        updated_model(r, None, content, now).title == r.title,
        updated_model(r, title, None, now).content == r.content,
{
}

/// After a successful delete the identifier finds nothing, so a second
/// delete of the same identifier signals not-found, though the end state
/// (absence) is the same as after the first.
pub proof fn lemma_delete_then_gone(s: Seq<RecordModel>, id: u128)
    requires
        store_inv(s),
        contains_id(s, id),
    ensures
        !contains_id(s.remove(idx_of(s, id)), id),
        store_inv(s.remove(idx_of(s, id))),
{
    lemma_remove_preserves_inv(s, id);
}

/// The listing order: a well-formed store never holds an older record
/// before a newer one, so records created at increasing times come out
/// newest first.
pub proof fn lemma_list_newest_first(s: Seq<RecordModel>, i: int, j: int)
    requires
        store_inv(s),
        0 <= i < j < s.len(),
    ensures
        s[i].created_at >= s[j].created_at,
{
}

} // verus!
