//! Interactive refinement of an analysis by its user.
use vstd::prelude::*;
use crate::text::{concat_str, decimal, decimal_string};

verus! {

/// Leads a refinement session, named by `session_id`.
pub struct InteractiveRefinementEngine {
    pub session_id: String,
}

/// `Utc::now().timestamp()`: the current time in seconds since the Unix
/// epoch. Nothing is promised about the value, which depends on the clock,
/// but that it is not negative (`Utc::now` fails on a clock set before the
/// epoch).
#[verifier::external_body]
fn now_timestamp() -> (r: i64)
    ensures
        r >= 0,
{
    chrono::Utc::now().timestamp()
}

impl InteractiveRefinementEngine {
    /// A session named after the time `timestamp` (seconds since the Unix
    /// epoch).
    pub fn at_time(timestamp: u64) -> (r: Self)
        ensures
            r.session_id@ == "refinement_"@ + decimal(timestamp as nat),
    {
        let n = decimal_string(timestamp);
        InteractiveRefinementEngine { session_id: concat_str("refinement_", n.as_str()) }
    }

    /// A session named after the current time.
    pub fn new() -> (r: Self)
        ensures
            exists|t: u64| r.session_id@ == "refinement_"@ + decimal(t as nat),
    {
        let t = now_timestamp();
        let r = Self::at_time(t as u64);
        assert(r.session_id@ == "refinement_"@ + decimal((t as u64) as nat));
        r
    }
}

} // verus!
