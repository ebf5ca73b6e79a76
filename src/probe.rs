//! Health probes: what the result of one liveness request says about a
//! backend.

use vstd::prelude::*;

verus! {

/// What came back from one liveness request to a backend.
pub enum ProbeOutcome {
    /// The backend answered with this HTTP status code.
    Responded(u16),
    /// The request failed before any status arrived.
    Unreachable,
}

/// HTTP's success class: the codes from 200 to 299.
pub open spec fn is_success_spec(code: u16) -> bool {
    200 <= code && code < 300
}

/// A backend is healthy exactly when it answered with a success status.
pub open spec fn outcome_healthy(o: ProbeOutcome) -> bool {
    match o {
        ProbeOutcome::Responded(code) => is_success_spec(code),
        ProbeOutcome::Unreachable => false,
    }
}

pub fn is_success_status(code: u16) -> (r: bool)
    ensures
        r == is_success_spec(code),
{
    200 <= code && code < 300
}

impl ProbeOutcome {
    /// The health flag that this outcome gives a backend.
    pub fn healthy(&self) -> (r: bool)
        ensures
            r == outcome_healthy(*self),
    {
        match self {
            ProbeOutcome::Responded(code) => is_success_status(*code),
            ProbeOutcome::Unreachable => false,
        }
    }
}

} // verus!
