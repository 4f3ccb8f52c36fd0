use vstd::prelude::*;

verus! {

/// The error taxonomy of the booking core.
///
/// `InvalidReference` and `InvalidTimestamp` are client-input errors;
/// `InvalidTimestamp` carries the underlying parse diagnostic verbatim.
/// `NotFound` reports an absent target record, `StoreFailure` a persistence
/// fault, and `QueryFailure` a fault of the aggregation stage (distinct from
/// the normal "owner unresolved, row dropped" filtering outcome).
#[derive(Debug, Clone, PartialEq, Eq)]
pub enum BookingError {
    InvalidReference,
    InvalidTimestamp(String),
    NotFound,
    StoreFailure,
    QueryFailure,
}

} // verus!
