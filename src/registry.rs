//! The registry of backends: a fixed, ordered list of addresses, each with a
//! health flag. Only the flags ever change.

use vstd::prelude::*;
use crate::probe::{ProbeOutcome, outcome_healthy};

verus! {

/// A backend's address and whether it was last seen healthy.
pub struct Backend {
    pub address: String,
    pub healthy: bool,
}

/// Abstract state of one backend.
pub struct BackendView {
    pub address: Seq<char>,
    pub healthy: bool,
}

impl View for Backend {
    type V = BackendView;

    open spec fn view(&self) -> BackendView {
        BackendView { address: self.address@, healthy: self.healthy }
    }
}

impl Backend {
    pub fn new(address: String, healthy: bool) -> (r: Backend)
        ensures
            r@ == (BackendView { address: address@, healthy }),
    {
        Backend { address, healthy }
    }

    /// A copy with the same address and flag.
    pub fn duplicate(&self) -> (r: Backend)
        ensures
            r@ == self@,
    {
        Backend { address: self.address.clone(), healthy: self.healthy }
    }
}

/// The views of a list of backends.
pub open spec fn backends_view(v: Seq<Backend>) -> Seq<BackendView> {
    Seq::new(v.len(), |i: int| v[i]@)
}

/// The list after setting the flag of every backend at `address`.
pub open spec fn with_health(s: Seq<BackendView>, address: Seq<char>, healthy: bool) -> Seq<
    BackendView,
> {
    Seq::new(
        s.len(),
        |i: int|
            if s[i].address == address {
                BackendView { address: s[i].address, healthy }
            } else {
                s[i]
            },
    )
}

/// The list after a series of health updates, applied in order.
pub open spec fn with_updates(s: Seq<BackendView>, updates: Seq<(Seq<char>, bool)>) -> Seq<
    BackendView,
>
    decreases updates.len(),
{
    if updates.len() == 0 {
        s
    } else {
        let last = updates.last();
        with_health(with_updates(s, updates.drop_last()), last.0, last.1)
    }
}

/// The flag given by the last update of `address` in `updates`, if any.
pub open spec fn last_update_for(updates: Seq<(Seq<char>, bool)>, address: Seq<char>) -> Option<
    bool,
>
    decreases updates.len(),
{
    if updates.len() == 0 {
        None
    } else if updates.last().0 == address {
        Some(updates.last().1)
    } else {
        last_update_for(updates.drop_last(), address)
    }
}

/// The list after a full probe pass whose outcomes, in registry order, are
/// `outcomes`.
pub open spec fn after_probe_pass(s: Seq<BackendView>, outcomes: Seq<ProbeOutcome>) -> Seq<
    BackendView,
> {
    Seq::new(
        s.len(),
        |i: int| BackendView { address: s[i].address, healthy: outcome_healthy(outcomes[i]) },
    )
}

/// The backends of a load balancer. The list is fixed when the registry is
/// made; updates change health flags only.
pub struct Registry {
    backends: Vec<Backend>,
}

impl View for Registry {
    type V = Seq<BackendView>;

    closed spec fn view(&self) -> Seq<BackendView> {
        backends_view(self.backends@)
    }
}

impl Registry {
    /// A registry of the given addresses, in order, all taken as healthy
    /// until the first probe says otherwise.
    pub fn new(addresses: Vec<String>) -> (r: Registry)
        ensures
            r@.len() == addresses@.len(),
            forall|i: int|
                0 <= i < addresses@.len() ==> r@[i] == (BackendView {
                    address: addresses@[i]@,
                    healthy: true,
                }),
    {
        let mut backends: Vec<Backend> = Vec::new();
        let mut i: usize = 0;
        while i < addresses.len()
            invariant
                i <= addresses@.len(),
                backends@.len() == i,
                forall|j: int|
                    0 <= j < i ==> backends@[j]@ == (BackendView {
                        address: addresses@[j]@,
                        healthy: true,
                    }),
            decreases addresses@.len() - i,
        {
            backends.push(Backend { address: addresses[i].clone(), healthy: true });
            i = i + 1;
        }
        Registry { backends }
    }

    pub fn len(&self) -> (r: usize)
        ensures
            r == self@.len(),
    {
        self.backends.len()
    }

    /// A copy of the backends as they stand now.
    pub fn snapshot(&self) -> (r: Vec<Backend>)
        ensures
            backends_view(r@) == self@,
    {
        let mut out: Vec<Backend> = Vec::new();
        let mut i: usize = 0;
        while i < self.backends.len()
            invariant
                i <= self.backends@.len(),
                out@.len() == i,
                forall|j: int| 0 <= j < i ==> out@[j]@ == self.backends@[j]@,
            decreases self.backends@.len() - i,
        {
            out.push(self.backends[i].duplicate());
            i = i + 1;
        }
        assert(backends_view(out@) =~= self@);
        out
    }

    /// Sets the flag of the backend at `address`. Returns whether such a
    /// backend exists; every other backend is left as it was.
    pub fn update_health(&mut self, address: &String, healthy: bool) -> (found: bool)
        ensures
            final(self)@ == with_health(old(self)@, address@, healthy),
            found == exists|i: int| 0 <= i < old(self)@.len() && old(self)@[i].address == address@,
    {
        let mut found = false;
        let mut i: usize = 0;
        while i < self.backends.len()
            invariant
                i <= self.backends@.len(),
                self.backends@.len() == old(self).backends@.len(),
                forall|j: int|
                    0 <= j < i ==> #[trigger] self.backends@[j]@ == with_health(
                        old(self)@,
                        address@,
                        healthy,
                    )[j],
                forall|j: int|
                    i <= j < self.backends@.len() ==> #[trigger] self.backends@[j]
                        == old(self).backends@[j],
                found == exists|j: int| 0 <= j < i && old(self)@[j].address == address@,
            decreases self.backends@.len() - i,
        {
            assert(old(self)@[i as int] == old(self).backends@[i as int]@);
            if self.backends[i].address == *address {
                self.backends[i].healthy = healthy;
                found = true;
            }
            i = i + 1;
        }
        assert(self@ =~= with_health(old(self)@, address@, healthy));
        found
    }

    /// Records a full probe pass: `outcomes[i]` is what backend `i` answered.
    /// Each flag becomes what its own outcome says; addresses stay.
    pub fn apply_probe_pass(&mut self, outcomes: &Vec<ProbeOutcome>)
        requires
            outcomes@.len() == old(self)@.len(),
        ensures
            final(self)@ == after_probe_pass(old(self)@, outcomes@),
    {
        let mut i: usize = 0;
        while i < self.backends.len()
            invariant
                i <= self.backends@.len(),
                outcomes@.len() == self.backends@.len(),
                self.backends@.len() == old(self).backends@.len(),
                forall|j: int|
                    0 <= j < i ==> #[trigger] self.backends@[j]@ == after_probe_pass(
                        old(self)@,
                        outcomes@,
                    )[j],
                forall|j: int|
                    i <= j < self.backends@.len() ==> #[trigger] self.backends@[j]
                        == old(self).backends@[j],
            decreases self.backends@.len() - i,
        {
            let h = outcomes[i].healthy();
            self.backends[i].healthy = h;
            i = i + 1;
        }
        assert(self@ =~= after_probe_pass(old(self)@, outcomes@));
    }
}

/// After any series of health updates, each backend keeps its address and
/// carries the flag of the last update of its address, or its earlier flag
/// where no update named it.
pub proof fn lemma_updates_read_back(s: Seq<BackendView>, updates: Seq<(Seq<char>, bool)>)
    ensures
        with_updates(s, updates).len() == s.len(),
        forall|i: int|
            0 <= i < s.len() ==> #[trigger] with_updates(s, updates)[i] == (BackendView {
                address: s[i].address,
                healthy: match last_update_for(updates, s[i].address) {
                    Some(h) => h,
                    None => s[i].healthy,
                },
            }),
    decreases updates.len(),
{
    if updates.len() > 0 {
        lemma_updates_read_back(s, updates.drop_last());
    }
}

/// A snapshot taken right after one update shows that update on every
/// backend at its address and no change anywhere else.
pub proof fn lemma_snapshot_after_update(
    before: Seq<BackendView>,
    address: Seq<char>,
    healthy: bool,
    snap: Seq<Backend>,
)
    requires
        backends_view(snap) == with_health(before, address, healthy),
    ensures
        snap.len() == before.len(),
        forall|i: int| 0 <= i < before.len() ==> (#[trigger] snap[i]).address@ == before[i].address,
        forall|i: int|
            0 <= i < before.len() && before[i].address == address ==> (#[trigger] snap[i]).healthy
                == healthy,
        forall|i: int|
            0 <= i < before.len() && before[i].address != address ==> (#[trigger] snap[i]).healthy
                == before[i].healthy,
{
    assert(backends_view(snap).len() == snap.len());
    assert(with_health(before, address, healthy).len() == before.len());
    assert forall|i: int| 0 <= i < before.len() implies (#[trigger] snap[i])@ == with_health(
        before,
        address,
        healthy,
    )[i] by {
        assert(backends_view(snap)[i] == snap[i]@);
    }
}

/// One probe pass decides every backend's flag from its own outcome alone:
/// a success status marks it healthy, another status or no answer marks it
/// unhealthy, whatever its flag was before. A pass in which no backend
/// answers with success leaves no backend healthy.
pub proof fn lemma_probe_pass_marks(s: Seq<BackendView>, outcomes: Seq<ProbeOutcome>)
    requires
        outcomes.len() == s.len(),
    ensures
        after_probe_pass(s, outcomes).len() == s.len(),
        forall|i: int|
            0 <= i < s.len() ==> (#[trigger] after_probe_pass(s, outcomes)[i]).address
                == s[i].address,
        forall|i: int|
            0 <= i < s.len() ==> (#[trigger] after_probe_pass(s, outcomes)[i]).healthy
                == match outcomes[i] {
                ProbeOutcome::Responded(code) => 200 <= code < 300,
                ProbeOutcome::Unreachable => false,
            },
        (forall|i: int| 0 <= i < s.len() ==> !outcome_healthy(#[trigger] outcomes[i])) ==> forall|
            i: int,
        |
            0 <= i < s.len() ==> !(#[trigger] after_probe_pass(s, outcomes)[i]).healthy,
{
}

} // verus!
