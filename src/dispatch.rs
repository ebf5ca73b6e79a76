//! The decision for one incoming request: admission first, then a healthy
//! backend to redirect to.

use vstd::prelude::*;
use crate::admission::{AdmissionController, admit_step};
use crate::registry::{Backend, backends_view};
use crate::router::{all_unhealthy, select};

verus! {

/// Body of the reply to a request refused by admission control.
pub const RATE_LIMITED_BODY: &'static str = "Too many requests, wait a moment";

/// Body of the reply to a request when no backend is healthy.
pub const NO_HEALTHY_BODY: &'static str = "No healthy servers available";

/// The reply to one request.
pub enum Reply {
    /// Refused by admission control.
    RateLimited,
    /// Redirect to the backend at this address.
    Redirect(String),
    /// Admitted, but no backend is healthy.
    NoHealthy,
}

/// Abstract form of a reply.
pub enum ReplyView {
    RateLimited,
    Redirect(Seq<char>),
    NoHealthy,
}

impl View for Reply {
    type V = ReplyView;

    open spec fn view(&self) -> ReplyView {
        match self {
            Reply::RateLimited => ReplyView::RateLimited,
            Reply::Redirect(a) => ReplyView::Redirect(a@),
            Reply::NoHealthy => ReplyView::NoHealthy,
        }
    }
}

/// HTTP status of a reply: a redirect is 302, the others are 200.
pub open spec fn status_of(v: ReplyView) -> u16 {
    match v {
        ReplyView::Redirect(_) => 302,
        _ => 200,
    }
}

/// Body of a reply: a redirect has none.
pub open spec fn body_of(v: ReplyView) -> Seq<char> {
    match v {
        ReplyView::RateLimited => RATE_LIMITED_BODY@,
        ReplyView::Redirect(_) => Seq::empty(),
        ReplyView::NoHealthy => NO_HEALTHY_BODY@,
    }
}

impl Reply {
    pub fn status(&self) -> (r: u16)
        ensures
            r == status_of(self@),
    {
        match self {
            Reply::Redirect(_) => 302,
            _ => 200,
        }
    }

    pub fn body(&self) -> (r: &'static str)
        ensures
            r@ == body_of(self@),
    {
        match self {
            Reply::RateLimited => RATE_LIMITED_BODY,
            Reply::Redirect(_) => {
                proof {
                    reveal_strlit("");
                }
                ""
            },
            Reply::NoHealthy => NO_HEALTHY_BODY,
        }
    }

    /// The `Location` header of a redirect.
    pub fn location(&self) -> (r: Option<String>)
        ensures
            match self@ {
                ReplyView::Redirect(a) => r matches Some(l) && l@ == a,
                _ => r.is_none(),
            },
    {
        match self {
            Reply::Redirect(a) => Some(a.clone()),
            _ => None,
        }
    }
}

/// Handles one request against a snapshot of the backends. Admission is
/// decided first and counts the request when it passes; an admitted request
/// is redirected to a healthy backend picked at random, or told that none is
/// healthy.
pub fn dispatch(admission: &mut AdmissionController, snapshot: &Vec<Backend>) -> (r: Reply)
    requires
        old(admission).wf(),
    ensures
        final(admission).wf(),
        final(admission)@ == admit_step(old(admission)@).0,
        (r@ == ReplyView::RateLimited) <==> !admit_step(old(admission)@).1,
        (r@ == ReplyView::NoHealthy) <==> (admit_step(old(admission)@).1 && all_unhealthy(
            backends_view(snapshot@),
        )),
        r@ matches ReplyView::Redirect(a) ==> exists|i: int|
            0 <= i < snapshot@.len() && snapshot@[i].healthy && a == (#[trigger] snapshot@[i]).address@,
{
    if !admission.try_admit() {
        return Reply::RateLimited;
    }
    match select(snapshot) {
        Some(b) => Reply::Redirect(b.address),
        None => Reply::NoHealthy,
    }
}

} // verus!
