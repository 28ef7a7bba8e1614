use vstd::prelude::*;

verus! {

/// Failure reported by an HTTP endpoint: a fixed summary and the details.
pub struct BackendError {
    pub error: &'static str,
    pub details: String,
}

impl BackendError {
    pub fn new(error: &'static str, details: String) -> (r: BackendError)
        ensures
            r.error == error,
            r.details == details,
    {
        BackendError { error, details }
    }
}

/// Why the hub refused a placement.
pub enum PlaceError {
    /// The position lies outside the canvas.
    OutOfBounds,
    /// The identity has no pixel left in the current window.
    QuotaExhausted,
    /// The store could not be reached or its data could not be read.
    StoreError(String),
}

/// Text sent to a client whose placement lay outside the canvas.
pub open spec fn out_of_bounds_text() -> Seq<char> {
    "Invalid position in canvas"@
}

/// Text sent to a client with no pixel left.
pub open spec fn quota_exhausted_text() -> Seq<char> {
    "No pixels left"@
}

impl PlaceError {
    /// The human-readable reason sent back to the client.
    pub fn reason(&self) -> (r: String)
        ensures
            self is OutOfBounds ==> r@ == out_of_bounds_text(),
            self is QuotaExhausted ==> r@ == quota_exhausted_text(),
            self matches PlaceError::StoreError(d) ==> r@ == d@,
    {
        match self {
            PlaceError::OutOfBounds => String::from_str("Invalid position in canvas"),
            PlaceError::QuotaExhausted => String::from_str("No pixels left"),
            PlaceError::StoreError(details) => details.clone(),
        }
    }
}

} // verus!
