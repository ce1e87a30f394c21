//! Query-driven extraction of manga metadata from pre-selected HTML documents.

pub mod dom;
pub mod engine;
pub mod extract;
pub mod kakalot;
pub mod query;
pub mod registry;
pub mod text;
pub mod web;
