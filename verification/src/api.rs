//! The query of the history endpoint.
use vstd::prelude::*;

verus! {

/// The query of `GET /api/v1/history`: the window, in hours, of metrics to
/// return.
#[derive(Clone, Copy, Debug, PartialEq, Eq)]
pub struct HistoryParams {
    pub hours: u64,
}

/// The window of a history query that names none: 24 hours.
pub fn default_hours() -> (h: u64)
    ensures
        h == 24,
{
    24
}

} // verus!
