use vstd::prelude::*;

verus! {

/// Why a query could not be answered.
#[derive(Clone, Copy, Debug, PartialEq, Eq, Structural)]
pub enum QueryError {
    /// No key of the store matches the identifier.
    NotFound,
    /// More than one key of the store matches the identifier.
    Ambiguous,
    /// The stored value is not a character record.
    DecodeError,
    /// A pagination argument is negative, or a cursor is no index.
    InvalidArgument,
    /// The store could not be reached, or its reply answers another request.
    StoreUnavailable,
    /// A key that was listed had no value when it was fetched.
    RaceLost,
}

} // verus!
