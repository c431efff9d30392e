//! The data model: one kind of record, the request payloads that create and
//! change it, and the errors an operation can signal.

use vstd::prelude::*;

verus! {

/// The abstract value of a stored record; contracts speak of these.
pub ghost struct RecordModel {
    pub id: u128,
    pub title: Seq<char>,
    pub content: Option<Seq<char>>,
    pub created_at: int,
    pub updated_at: int,
}

/// A record as the store hands it out: a unique identifier, a required
/// title, optional content, and the two timestamps (microseconds since the
/// Unix epoch). `created_at` is set once; `updated_at` moves on every
/// successful update.
#[derive(Debug, PartialEq, Eq)]
pub struct Test {
    pub id: u128,
    pub title: String,
    pub content: Option<String>,
    pub created_at: i64,
    pub updated_at: i64,
}

impl View for Test {
    type V = RecordModel;

    open spec fn view(&self) -> RecordModel {
        RecordModel {
            id: self.id,
            title: self.title@,
            content: opt_text(self.content),
            created_at: self.created_at as int,
            updated_at: self.updated_at as int,
        }
    }
}

/// The text carried by an optional string, if any.
pub open spec fn opt_text(c: Option<String>) -> Option<Seq<char>> {
    match c {
        Some(s) => Some(s@),
        None => None,
    }
}

impl Test {
    /// A deep copy of the record.
    pub fn duplicate(&self) -> (r: Test)
        ensures
            r@ == self@,
    {
        Test {
            id: self.id,
            title: self.title.clone(),
            content: match &self.content {
                Some(c) => Some(c.clone()),
                None => None,
            },
            created_at: self.created_at,
            updated_at: self.updated_at,
        }
    }

    /// The identifier's hyphenated text, as a response renders it; reading
    /// it back yields the identifier again.
    pub fn id_string(&self) -> (r: String)
        ensures
            r@ == crate::ids::uuid_text(self.id),
            r@.len() == 36,
            crate::ids::parsed_uuid(r@) == Some(self.id),
    {
        crate::ids::id_text(self.id)
    }
}

/// Payload for creating a record: the title is required, the content is not.
#[derive(Debug)]
pub struct CreateTestRequest {
    pub title: String,
    pub content: Option<String>,
}

/// Payload for updating a record: each present field overwrites the stored
/// value, each absent field leaves it unchanged.
#[derive(Debug)]
pub struct UpdateTestRequest {
    pub title: Option<String>,
    pub content: Option<String>,
}

/// What an operation signals when it cannot return a record: a malformed
/// identifier, no row with the given identifier, or a store-level failure.
#[derive(Clone, Copy, Debug, PartialEq, Eq, Structural)]
pub enum ApiError {
    InvalidId,
    NotFound,
    Internal,
}

impl ApiError {
    /// The HTTP status that reports this error: 404 for a bad or unknown
    /// identifier, 500 for a store-level failure.
    pub open spec fn status_code_spec(&self) -> u16 {
        match self {
            ApiError::InvalidId => 404,
            ApiError::NotFound => 404,
            ApiError::Internal => 500,
        }
    }

    /// The HTTP status code carried by this error.
    pub fn status_code(&self) -> (code: u16)
        ensures
            code == self.status_code_spec(),
    {
        match self {
            ApiError::InvalidId => 404,
            ApiError::NotFound => 404,
            ApiError::Internal => 500,
        }
    }
}

} // verus!
