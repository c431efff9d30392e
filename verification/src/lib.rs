//! A small CRUD core over a single kind of "test" record: a store that
//! keeps records unique by identifier and ordered newest first, the five
//! operations a REST surface exposes over it (list, get, create, update,
//! delete), and the rules they obey, proved once and for all. The HTTP
//! layer, the clock and the identifier generator live outside; the store's
//! semantics live here.

pub mod clock;
pub mod config;
pub mod handlers;
pub mod ids;
pub mod laws;
pub mod models;
pub mod store;
