use vstd::prelude::*;

verus! {

/// The single error value of the library: some calendar/time value was
/// invalid (a field out of range, a malformed text form, or an unreadable
/// clock).
#[derive(Clone, Copy, PartialEq, Eq, Structural, Debug, Hash)]
pub struct WBDLError;

} // verus!
