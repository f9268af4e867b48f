use vstd::prelude::*;

verus! {

/// The categories of failure an introspection run can report. Every error
/// is fatal to the build in progress: the caller sees either a complete
/// tree or exactly one of these, never partial data.
#[derive(Clone, Copy, Debug, PartialEq, Eq, Structural)]
pub enum IntrospectionError {
    /// The session pool could not hand out a connection.
    ConnectionError,
    /// The read-only scope could not be opened on the connection.
    TransactionError,
    /// A catalog query failed outright (malformed query, incompatible
    /// catalog shape, lost session).
    CatalogQueryError,
    /// A selected schema name resolved to no object id.
    NotFoundError,
    /// A query expected to return exactly one row returned zero or more
    /// than one.
    CardinalityError,
}

} // verus!
