//! Core of a record-keeping service for organizational topics, members and
//! tags: a versioned record store with optimistic concurrency control and a
//! global change-revision counter, together with the pure logic that feeds a
//! best-effort full-text search index over topics.

pub mod auth;
pub mod datastore;
pub mod errors;
pub mod member;
pub mod search;
pub mod store;
pub mod tag;
pub mod text;
pub mod topic;
