//! The errors of a search.
use vstd::prelude::*;

use crate::fields::FieldId;
use crate::filter::InvalidExpression;

verus! {

/// What can fail.
pub trait Fallible {
    type Error;
}

/// Why a search fails. `E` is the error type of the engine that holds the index.
#[derive(Debug, Clone, PartialEq)]
pub enum SearchError<E> {
    /// The query asks for something that has to be enabled first.
    FeatureNotEnabled(&'static str),
    /// The query has a text and a vector, and does not say how to put them together.
    MissingSearchHybrid,
    /// The filter of the query holds something else than texts in the right places.
    InvalidExpression(InvalidExpression),
    /// A stored document has, or is to show, a field that the index does not know.
    MissingFieldName(FieldId),
    /// The query sorts by a point whose coordinates are not numbers.
    UnmeasurablePoint,
    /// The pages that the results fill cannot be counted.
    UncountablePages,
    /// The engine failed.
    Engine(E),
}

/// Whether two errors say the same.
pub open spec fn same_error<E>(left: SearchError<E>, right: SearchError<E>) -> bool {
    match left {
        SearchError::InvalidExpression(left) => right is InvalidExpression && left@
            == right->InvalidExpression_0@,
        _ => left == right,
    }
}

/// Whether of two outcomes both are successes, or both are failures with the same error.
pub open spec fn fail_alike<A, B, E>(left: Result<A, E>, right: Result<B, E>) -> bool {
    match left {
        Ok(_) => right is Ok,
        Err(error) => right is Err && right->Err_0 == error,
    }
}

} // verus!
