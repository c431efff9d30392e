//! The five resource operations and the health check, as the HTTP layer
//! calls them: each takes the shared store and plain values, and returns a
//! record or an error to be rendered as a response.

use vstd::prelude::*;

use crate::clock::now_micros;
use crate::ids::{fresh_id, parse_id, parsed_uuid};
use crate::models::{ApiError, CreateTestRequest, Test, UpdateTestRequest};
use crate::models::opt_text;
use crate::store::{
    contains_id, idx_of, insert_pos, record_of, Store, views_of,
};

verus! {

/// The health check's body.
pub fn health() -> (r: &'static str)
    ensures
        r@ == "OK"@,
{
    "OK"
}

/// All records, newest first. An empty store is a valid, non-error outcome.
pub fn list_tests(store: &Store) -> (r: Vec<Test>)
    ensures
        views_of(r@) == store@,
{
    store.list()
}

/// Exactly one record, or an error: a malformed identifier fails before
/// reaching the store, and an unknown one is not-found. No side effects.
pub fn get_test(store: &Store, id: &str) -> (r: Result<Test, ApiError>)
    requires
        store.wf(),
    ensures
        match parsed_uuid(id@) {
            None => r == Err::<Test, ApiError>(ApiError::InvalidId),
            Some(u) => match r {
                Ok(t) => contains_id(store@, u) && t@ == record_of(store@, u),
                Err(e) => e == ApiError::NotFound && !contains_id(store@, u),
            },
        },
{
    match parse_id(id) {
        None => Err(ApiError::InvalidId),
        Some(u) => store.get(u),
    }
}

/// Creates a record from the payload: a fresh identifier is drawn, and both
/// timestamps are set to the clock's reading. The identifier is chance, so
/// a collision (a store-level failure) cannot be ruled out here; whatever
/// was drawn, the store changes only as stated.
pub fn create_test(store: &mut Store, req: CreateTestRequest) -> (r: Result<Test, ApiError>)
    requires
        old(store).wf(),
    ensures
        final(store).wf(),
        match r {
            Ok(t) => {
                &&& t@.title == req.title@
                &&& t@.content == opt_text(req.content)
                &&& t@.created_at == t@.updated_at
                &&& !contains_id(old(store)@, t@.id)
                &&& final(store)@ == old(store)@.insert(
                    insert_pos(old(store)@, t@.created_at),
                    t@,
                )
            },
            Err(e) => e == ApiError::Internal && final(store)@ == old(store)@,
        },
{
    let id = fresh_id();
    let now = now_micros();
    store.create(id, now, req)
}

/// Overwrites the stored record's fields with the payload's present ones,
/// keeps its absent ones, and moves `updated_at` forward; an empty payload
/// only bumps `updated_at`. A malformed identifier fails before reaching
/// the store, and an unknown one is not-found.
pub fn update_test(store: &mut Store, id: &str, req: UpdateTestRequest) -> (r: Result<
    Test,
    ApiError,
>)
    requires
        old(store).wf(),
    ensures
        final(store).wf(),
        match parsed_uuid(id@) {
            None => r == Err::<Test, ApiError>(ApiError::InvalidId)
                && final(store)@ == old(store)@,
            Some(u) => match r {
                Ok(t) => {
                    &&& contains_id(old(store)@, u)
                    &&& t@.id == u
                    &&& t@.title == match opt_text(req.title) {
                        Some(s) => s,
                        None => record_of(old(store)@, u).title,
                    }
                    &&& t@.content == match opt_text(req.content) {
                        Some(c) => Some(c),
                        None => record_of(old(store)@, u).content,
                    }
                    &&& t@.created_at == record_of(old(store)@, u).created_at
                    &&& t@.updated_at >= record_of(old(store)@, u).updated_at
                    &&& final(store)@ == old(store)@.update(idx_of(old(store)@, u), t@)
                },
                Err(e) => e == ApiError::NotFound && !contains_id(old(store)@, u)
                    && final(store)@ == old(store)@,
            },
        },
{
    match parse_id(id) {
        None => Err(ApiError::InvalidId),
        Some(u) => {
            let now = now_micros();
            store.update(u, now, req)
        },
    }
}

/// Removes the record for good: a no-content success, or not-found for an
/// unknown or malformed identifier. Deleting the same identifier again
/// therefore reports not-found, though the end state is the same.
pub fn delete_test(store: &mut Store, id: &str) -> (r: Result<(), ApiError>)
    requires
        old(store).wf(),
    ensures
        final(store).wf(),
        match parsed_uuid(id@) {
            None => r == Err::<(), ApiError>(ApiError::InvalidId)
                && final(store)@ == old(store)@,
            Some(u) => match r {
                Ok(x) => {
                    &&& contains_id(old(store)@, u)
                    &&& final(store)@ == old(store)@.remove(idx_of(old(store)@, u))
                    &&& !contains_id(final(store)@, u)
                },
                Err(e) => e == ApiError::NotFound && !contains_id(old(store)@, u)
                    && final(store)@ == old(store)@,
            },
        },
{
    match parse_id(id) {
        None => Err(ApiError::InvalidId),
        Some(u) => store.delete(u),
    }
}

} // verus!
