use vstd::prelude::*;

verus! {

/// The kinds of failure the catalog reports.
#[derive(Clone, Copy, Debug, PartialEq, Eq, Structural)]
pub enum CatalogError {
    /// No usable search filter was supplied.
    InvalidQuery,
    /// A search hit's key has no `/`, so no external id can be taken from it.
    MalformedExternalKey,
    /// The external search service failed, timed out or answered malformed data.
    UpstreamUnavailable,
    /// The store cannot be reached or cannot take another record.
    StoreUnavailable,
    /// A unique-key insert lost a race and the retry as an update failed too.
    ConstraintViolation,
}

} // verus!
