//! Why a row could not be turned into an event.

use vstd::prelude::*;

verus! {

/// A decode failure for one row, or a failure of the row source itself.
#[derive(Debug, Clone, PartialEq, Eq)]
pub enum DecodeError {
    /// A timestamp field does not have the `day/month/year hour:minute` shape.
    MalformedTimestamp,
    /// A duration field is not `HOURS:MINUTES`.
    MalformedDuration,
    /// The row's type tag names no known kind of event.
    UnknownEventType(String),
    /// The row source failed (bad tabular syntax, missing header).
    RowSource(String),
}

} // verus!
