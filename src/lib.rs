//! A book catalog whose bibliographic metadata comes from an external search
//! service and is merged into a local store under a recency-gated,
//! field-by-field coalesce.
pub mod api;
pub mod book;
mod clock;
pub mod details;
pub mod error;
pub mod laws;
pub mod openlibrary;
pub mod store;
pub mod text;
