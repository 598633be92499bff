//! The lifecycle of the inbound-HTTP backend, the one capability that
//! outlives the guest's entry point.
//!
//! The machine runs `Linked` (no template yet) to `Serving` (template
//! attached, accepting connections) to `Draining` (shutdown signaled, no
//! new connections, in-flight requests finishing) to `Stopped`. A shutdown
//! signal is cooperative: it refuses new connections but lets in-flight
//! requests finish.

use vstd::prelude::*;

verus! {

/// The lifecycle state of the inbound-HTTP backend instance. `Unlinked` is
/// the absence of the instance; a freshly linked instance starts at
/// `Linked`.
#[derive(Clone, Copy, Debug, PartialEq, Eq, Structural)]
pub enum HttpState {
    /// Linked into the guest build, no guest-instantiation template yet.
    Linked,
    /// Template attached; accepting connections, `in_flight` requests
    /// currently running.
    Serving { in_flight: u64 },
    /// Shutdown signaled; refusing new connections while `in_flight`
    /// requests finish.
    Draining { in_flight: u64 },
    /// All in-flight requests have returned.
    Stopped,
}

/// A `Draining` state always has at least one request left to finish:
/// a drain that empties moves straight to `Stopped`.
pub open spec fn http_state_wf(s: HttpState) -> bool {
    match s {
        HttpState::Draining { in_flight } => in_flight >= 1,
        _ => true,
    }
}

/// Attaching a guest-instantiation template begins serving.
pub open spec fn spec_attach_template(s: HttpState) -> HttpState {
    HttpState::Serving { in_flight: 0 }
}

/// The shutdown signal: stop accepting, keep what is in flight; with
/// nothing in flight the drain is already over.
pub open spec fn spec_begin_shutdown(s: HttpState) -> HttpState {
    match s {
        HttpState::Serving { in_flight } => if in_flight == 0 {
            HttpState::Stopped
        } else {
            HttpState::Draining { in_flight }
        },
        _ => s,
    }
}

/// An inbound connection: accepted only while serving and below capacity.
pub open spec fn spec_request_arrived(s: HttpState) -> (HttpState, bool) {
    match s {
        HttpState::Serving { in_flight } => if in_flight < u64::MAX {
            (HttpState::Serving { in_flight: (in_flight + 1) as u64 }, true)
        } else {
            (s, false)
        },
        _ => (s, false),
    }
}

/// One in-flight request returns; the last one to return ends a drain.
pub open spec fn spec_request_finished(s: HttpState) -> HttpState {
    match s {
        HttpState::Serving { in_flight } => if in_flight >= 1 {
            HttpState::Serving { in_flight: (in_flight - 1) as u64 }
        } else {
            s
        },
        HttpState::Draining { in_flight } => if in_flight <= 1 {
            HttpState::Stopped
        } else {
            HttpState::Draining { in_flight: (in_flight - 1) as u64 }
        },
        _ => s,
    }
}

impl HttpState {
    /// How many requests are currently running.
    pub open spec fn spec_in_flight(self) -> nat {
        match self {
            HttpState::Serving { in_flight } => in_flight as nat,
            HttpState::Draining { in_flight } => in_flight as nat,
            _ => 0,
        }
    }

    /// Attaches a fresh guest-instantiation template to a linked, not yet
    /// serving backend: the `Linked` to `Serving` transition.
    pub fn attach_template(self) -> (r: HttpState)
        requires
            self == HttpState::Linked,
        ensures
            r == spec_attach_template(self),
            r == (HttpState::Serving { in_flight: 0u64 }),
    {
        HttpState::Serving { in_flight: 0 }
    }

    /// Consumes the shutdown signal: `Serving` moves to `Draining`, or
    /// straight to `Stopped` when nothing is in flight.
    pub fn begin_shutdown(self) -> (r: HttpState)
        requires
            self matches HttpState::Serving { .. },
        ensures
            r == spec_begin_shutdown(self),
            http_state_wf(r),
    {
        match self {
            HttpState::Serving { in_flight } => if in_flight == 0 {
                HttpState::Stopped
            } else {
                HttpState::Draining { in_flight }
            },
            _ => self,
        }
    }

    /// Offers an inbound connection to the machine. The second result says
    /// whether the connection was accepted: only a `Serving` state below
    /// capacity accepts, and a draining or stopped machine never does.
    pub fn request_arrived(self) -> (r: (HttpState, bool))
        ensures
            r == spec_request_arrived(self),
            !(self matches HttpState::Serving { .. }) ==> r == (self, false),
            http_state_wf(self) ==> http_state_wf(r.0),
    {
        match self {
            HttpState::Serving { in_flight } => if in_flight < u64::MAX {
                (HttpState::Serving { in_flight: in_flight + 1 }, true)
            } else {
                (self, false)
            },
            _ => (self, false),
        }
    }

    /// Records one request's completion. The last in-flight request of a
    /// drain moves the machine to `Stopped`.
    pub fn request_finished(self) -> (r: HttpState)
        requires
            self.spec_in_flight() >= 1,
        ensures
            r == spec_request_finished(self),
            r.spec_in_flight() == self.spec_in_flight() - 1,
            http_state_wf(r),
    {
        match self {
            HttpState::Serving { in_flight } => if in_flight >= 1 {
                HttpState::Serving { in_flight: in_flight - 1 }
            } else {
                self
            },
            HttpState::Draining { in_flight } => if in_flight <= 1 {
                HttpState::Stopped
            } else {
                HttpState::Draining { in_flight: in_flight - 1 }
            },
            _ => self,
        }
    }
}

/// The state after `k` requests have finished.
pub open spec fn spec_finish_requests(s: HttpState, k: nat) -> HttpState
    decreases k,
{
    if k == 0 {
        s
    } else {
        spec_finish_requests(spec_request_finished(s), (k - 1) as nat)
    }
}

/// A drain terminates: once the shutdown signal is consumed, finishing the
/// requests that were in flight always reaches `Stopped`, and no new
/// request is accepted along the way.
pub proof fn lemma_drain_reaches_stopped(s: HttpState)
    requires
        s matches HttpState::Serving { .. },
    ensures
        spec_finish_requests(spec_begin_shutdown(s), s.spec_in_flight()) == HttpState::Stopped,
        forall|k: nat|
            k < s.spec_in_flight() ==> !(#[trigger] spec_request_arrived(
                spec_finish_requests(spec_begin_shutdown(s), k),
            )).1,
    decreases s.spec_in_flight(),
{
    let n = s.spec_in_flight();
    let d = spec_begin_shutdown(s);
    if n == 0 {
    } else {
        lemma_finish_through_drain(d, n);
    }
}

/// Finishing exactly the in-flight count of a draining machine reaches
/// `Stopped`, refusing every connection offered along the way.
proof fn lemma_finish_through_drain(d: HttpState, n: nat)
    requires
        d == (HttpState::Draining { in_flight: n as u64 }),
        1 <= n <= u64::MAX,
    ensures
        spec_finish_requests(d, n) == HttpState::Stopped,
        forall|k: nat| k < n ==> !(#[trigger] spec_request_arrived(spec_finish_requests(d, k))).1,
    decreases n,
{
    let d2 = spec_request_finished(d);
    if n == 1 {
        assert(spec_finish_requests(d, 1) == spec_finish_requests(d2, 0));
        assert(forall|k: nat| k < 1 ==> spec_finish_requests(d, k) == d);
    } else {
        lemma_finish_through_drain(d2, (n - 1) as nat);
        assert(spec_finish_requests(d, n) == spec_finish_requests(d2, (n - 1) as nat));
        assert forall|k: nat| k < n implies !(#[trigger] spec_request_arrived(
            spec_finish_requests(d, k),
        )).1 by {
            if k == 0 {
                assert(spec_finish_requests(d, 0) == d);
            } else {
                assert(spec_finish_requests(d, k) == spec_finish_requests(d2, (k - 1) as nat));
            }
        }
    }
}

} // verus!
