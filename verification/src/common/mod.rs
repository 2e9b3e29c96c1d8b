//! Types shared by every part of the catalog.
use vstd::prelude::*;

verus! {

/// The JSON envelope of an API answer: a status code, a message and, on
/// success, a payload.
pub struct ApiResponse<T> {
    pub status: u16,
    pub message: String,
    pub data: Option<T>,
}

impl<T> ApiResponse<T> {
    /// An error answer: the given status and message, and no payload.
    pub fn error(status: u16, message: String) -> (r: Self)
        ensures
            r.status == status,
            r.message == message,
            r.data is None,
    {
        Self { status, message, data: None }
    }
}

/// A point in time in UTC, as whole seconds since the Unix epoch and the
/// nanoseconds within that second (the database's `timestamptz`). The
/// catalog carries it from the database to the pages without reading it.
#[derive(Clone, Copy, Debug, PartialEq, Eq, Structural)]
pub struct Timestamp {
    pub secs: i64,
    pub nanos: u32,
}

} // verus!
