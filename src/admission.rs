//! Admission control: a lifetime request counter checked against a fixed
//! ceiling. A request is refused once the counter has passed the ceiling;
//! the counter is never reset.

use vstd::prelude::*;

verus! {

/// The ceiling used by a load balancer that is not configured otherwise.
pub const DEFAULT_CEILING: u32 = 100;

/// Abstract state of an admission controller.
pub struct AdmissionView {
    pub count: nat,
    pub ceiling: nat,
}

/// One admission attempt: refuse when the count exceeds the ceiling,
/// otherwise count the request and admit it.
pub open spec fn admit_step(v: AdmissionView) -> (AdmissionView, bool) {
    if v.count > v.ceiling {
        (v, false)
    } else {
        (AdmissionView { count: v.count + 1, ceiling: v.ceiling }, true)
    }
}

/// The state after `n` consecutive attempts from `v`.
pub open spec fn run(v: AdmissionView, n: nat) -> AdmissionView
    decreases n,
{
    if n == 0 {
        v
    } else {
        admit_step(run(v, (n - 1) as nat)).0
    }
}

/// How many of `n` consecutive attempts from `v` were admitted.
pub open spec fn admitted(v: AdmissionView, n: nat) -> nat
    decreases n,
{
    if n == 0 {
        0
    } else {
        admitted(v, (n - 1) as nat) + if admit_step(run(v, (n - 1) as nat)).1 {
            1nat
        } else {
            0nat
        }
    }
}

/// A fresh controller with the given ceiling.
pub open spec fn fresh(ceiling: nat) -> AdmissionView {
    AdmissionView { count: 0, ceiling }
}

/// Counts admitted requests and refuses them once the count passes the
/// ceiling. Callers that share one controller serialise `try_admit`
/// behind a lock, so each call sees the effect of all earlier ones.
pub struct AdmissionController {
    count: u64,
    ceiling: u32,
}

impl View for AdmissionController {
    type V = AdmissionView;

    closed spec fn view(&self) -> AdmissionView {
        AdmissionView { count: self.count as nat, ceiling: self.ceiling as nat }
    }
}

impl AdmissionController {
    /// The counter never runs more than one past the ceiling.
    pub closed spec fn wf(&self) -> bool {
        self.count <= self.ceiling as u64 + 1
    }

    pub fn new(ceiling: u32) -> (r: AdmissionController)
        ensures
            r.wf(),
            r@ == fresh(ceiling as nat),
    {
        AdmissionController { count: 0, ceiling }
    }

    /// Decides one request: admitted (and counted) unless the count
    /// already exceeds the ceiling.
    pub fn try_admit(&mut self) -> (r: bool)
        requires
            old(self).wf(),
        ensures
            final(self).wf(),
            (final(self)@, r) == admit_step(old(self)@),
    {
        if self.count > self.ceiling as u64 {
            false
        } else {
            self.count = self.count + 1;
            true
        }
    }

    /// Requests admitted so far.
    pub fn count(&self) -> (r: u64)
        ensures
            r as nat == self@.count,
    {
        self.count
    }

    pub fn ceiling(&self) -> (r: u32)
        ensures
            r as nat == self@.ceiling,
    {
        self.ceiling
    }
}

/// Starting from a fresh controller, `n` consecutive attempts admit exactly
/// the first `ceiling + 1` of them, and the counter equals the number
/// admitted.
pub proof fn lemma_admitted_count(ceiling: nat, n: nat)
    ensures
        run(fresh(ceiling), n).ceiling == ceiling,
        run(fresh(ceiling), n).count == admitted(fresh(ceiling), n),
        admitted(fresh(ceiling), n) == if n <= ceiling + 1 {
            n
        } else {
            ceiling + 1
        },
    decreases n,
{
    if n > 0 {
        lemma_admitted_count(ceiling, (n - 1) as nat);
    }
}

/// However many attempts are made, no more than `ceiling + 1` are admitted.
pub proof fn lemma_admissions_bounded(ceiling: nat, n: nat)
    ensures
        admitted(fresh(ceiling), n) <= ceiling + 1,
{
    lemma_admitted_count(ceiling, n);
}

/// Once `ceiling + 1` requests have been admitted, every later attempt is
/// refused and leaves the controller unchanged.
pub proof fn lemma_refused_forever(ceiling: nat, n: nat)
    requires
        n >= ceiling + 1,
    ensures
        admitted(fresh(ceiling), n) == ceiling + 1,
        !admit_step(run(fresh(ceiling), n)).1,
        admit_step(run(fresh(ceiling), n)).0 == run(fresh(ceiling), n),
{
    lemma_admitted_count(ceiling, n);
}

/// With no earlier attempts refused, the attempt that follows exactly
/// `ceiling` admissions is still admitted: refusal starts only once the
/// count is strictly greater than the ceiling.
pub proof fn lemma_last_admitted(ceiling: nat)
    ensures
        admitted(fresh(ceiling), ceiling) == ceiling,
        admit_step(run(fresh(ceiling), ceiling)).1,
        !admit_step(run(fresh(ceiling), ceiling + 1)).1,
{
    lemma_admitted_count(ceiling, ceiling);
    lemma_admitted_count(ceiling, ceiling + 1);
}

/// A refusal changes nothing, so from any state that refuses, every later
/// attempt is refused too: the counter is never reset.
pub proof fn lemma_refusal_is_permanent(v: AdmissionView, n: nat)
    requires
        !admit_step(v).1,
    ensures
        run(v, n) == v,
        !admit_step(run(v, n)).1,
    decreases n,
{
    if n > 0 {
        lemma_refusal_is_permanent(v, (n - 1) as nat);
    }
}

} // verus!
