//! The long-running capability coordinator: the decisions of one guest
//! run, from a built handle to completion.
//!
//! A run builds the guest handle, and — when the inbound-HTTP family was
//! linked — builds a second, independent handle from the same manifest as
//! a guest-instantiation template and hands it to the HTTP backend before
//! the entry point runs. The entry point is invoked exactly once; with
//! HTTP active the run then waits for an external shutdown signal,
//! consumes it, and lets in-flight requests drain before it is done.

use vstd::prelude::*;

use crate::engine::{
    build_store_instance, get_resource, lemma_find_last_at, lemma_find_last_no_match_after,
    lemma_find_last_props, linked_contains, spec_build, spec_family_of_backend,
    spec_find_last_scheme, spec_init_handle, spec_scheme_of_backend, BackendInstance, BackendModel,
    GuestBuildHandle, HandleModel,
};
use crate::error::BuildError;
use crate::family::{lemma_schemes_distinct, CapabilityFamily};
use crate::http::{
    http_state_wf, spec_begin_shutdown, spec_request_arrived, spec_request_finished, HttpState,
};
use crate::manifest::{spec_parse_version, Manifest};

verus! {

/// Where a run stands.
#[derive(Clone, Copy, Debug, PartialEq, Eq, Structural)]
pub enum RunPhase {
    /// Handle built and, with HTTP, template attached; the entry point has
    /// not yet been invoked.
    BeforeEntry,
    /// The entry point returned successfully.
    AfterEntry,
    /// The shutdown signal was consumed; in-flight requests are finishing.
    Draining,
    /// Nothing is left to do.
    Done,
}

/// The index of the attachment under the `http` scheme.
pub open spec fn spec_http_index(h: HandleModel) -> int {
    spec_find_last_scheme(h.attachments, "http"@)
}

/// The lifecycle state of the handle's inbound-HTTP backend.
pub open spec fn spec_http_state(h: HandleModel) -> HttpState {
    match h.attachments[spec_http_index(h)] {
        BackendModel::HttpServer { state } => state,
        _ => HttpState::Linked,
    }
}

/// A run in progress: the guest handle the entry point consumes, the
/// template the HTTP backend rebuilds fresh guests from, whether HTTP
/// serving is active, and the phase reached.
pub struct RunPlan {
    pub handle: GuestBuildHandle,
    pub template: Option<GuestBuildHandle>,
    pub http_enabled: bool,
    pub phase: RunPhase,
}

impl RunPlan {
    /// With HTTP active, the handle holds an inbound-HTTP backend under
    /// the `http` scheme, in a well-formed lifecycle state, and a
    /// template for it exists.
    pub open spec fn wf(self) -> bool {
        self.http_enabled ==> {
            let i = spec_http_index(self.handle@);
            &&& 0 <= i < self.handle@.attachments.len()
            &&& self.handle@.attachments[i] matches BackendModel::HttpServer { .. }
            &&& http_state_wf(spec_http_state(self.handle@))
            &&& self.template is Some
        }
    }

    /// Reads the lifecycle state of the inbound-HTTP backend.
    pub fn http_state(&self) -> (r: HttpState)
        requires
            self.wf(),
            self.http_enabled,
        ensures
            r == spec_http_state(self.handle@),
    {
        proof {
            let i = spec_http_index(self.handle@);
            assert(spec_scheme_of_backend(self.handle@.attachments[i]) == "http"@);
        }
        let idx = match get_resource(&self.handle, "http", CapabilityFamily::HttpServer) {
            Ok(i) => i,
            Err(_) => {
                return HttpState::Linked;
            },
        };
        match &self.handle.attachments[idx] {
            BackendInstance::HttpServer { state } => *state,
            _ => HttpState::Linked,
        }
    }

    /// Replaces the lifecycle state of the inbound-HTTP backend, leaving
    /// everything else as it was.
    fn set_http_state(&mut self, s: HttpState)
        requires
            old(self).wf(),
            old(self).http_enabled,
        ensures
            final(self).handle@.attachments == old(self).handle@.attachments.update(
                spec_http_index(old(self).handle@),
                BackendModel::HttpServer { state: s },
            ),
            final(self).handle@.store == old(self).handle@.store,
            final(self).handle@.linked == old(self).handle@.linked,
            final(self).template == old(self).template,
            final(self).http_enabled == old(self).http_enabled,
            final(self).phase == old(self).phase,
            spec_http_index(final(self).handle@) == spec_http_index(old(self).handle@),
            spec_http_state(final(self).handle@) == s,
            http_state_wf(s) ==> final(self).wf(),
    {
        let ghost old_atts = self.handle@.attachments;
        let ghost i_spec = spec_http_index(self.handle@);
        proof {
            assert(spec_scheme_of_backend(old_atts[i_spec]) == "http"@);
        }
        let idx = match get_resource(&self.handle, "http", CapabilityFamily::HttpServer) {
            Ok(i) => i,
            Err(_) => {
                return;
            },
        };
        self.handle.attachments[idx] = BackendInstance::HttpServer { state: s };
        proof {
            assert(self.handle@.attachments =~= old_atts.update(
                i_spec,
                BackendModel::HttpServer { state: s },
            ));
            lemma_find_last_no_match_after(old_atts, "http"@);
            let new_atts = self.handle@.attachments;
            assert(spec_scheme_of_backend(new_atts[i_spec]) == "http"@);
            assert forall|k: int|
                i_spec < k < new_atts.len() implies spec_scheme_of_backend(#[trigger] new_atts[k])
                != "http"@ by {
                assert(new_atts[k] == old_atts[k]);
            }
            lemma_find_last_at(new_atts, "http"@, i_spec);
        }
    }

    /// Records the outcome of the guest's entry point, invoked exactly
    /// once per run; a failing entry point fails the run with
    /// `GuestExecutionError` and ends it.
    pub fn record_entry_outcome(&mut self, entry_ok: bool) -> (r: Result<(), BuildError>)
        requires
            old(self).phase == RunPhase::BeforeEntry,
        ensures
            final(self).handle == old(self).handle,
            final(self).template == old(self).template,
            final(self).http_enabled == old(self).http_enabled,
            old(self).wf() ==> final(self).wf(),
            entry_ok ==> r == Ok::<(), BuildError>(()) && final(self).phase == RunPhase::AfterEntry,
            !entry_ok ==> r == Err::<(), BuildError>(BuildError::GuestExecutionError)
                && final(self).phase == RunPhase::Done,
    {
        if entry_ok {
            self.phase = RunPhase::AfterEntry;
            Ok(())
        } else {
            self.phase = RunPhase::Done;
            Err(BuildError::GuestExecutionError)
        }
    }

    /// After the entry point, the run blocks for a shutdown signal exactly
    /// when HTTP serving is active.
    pub fn awaits_shutdown(&self) -> (r: bool)
        requires
            self.phase == RunPhase::AfterEntry,
        ensures
            r == self.http_enabled,
    {
        self.http_enabled
    }

    /// Ends a run that linked no long-running capability: nothing outlives
    /// the entry point.
    pub fn finish(&mut self)
        requires
            old(self).phase == RunPhase::AfterEntry,
            !old(self).http_enabled,
        ensures
            *final(self) == (RunPlan { phase: RunPhase::Done, ..*old(self) }),
    {
        self.phase = RunPhase::Done;
    }

    /// Consumes the external shutdown signal, exactly once, after the
    /// entry point has completed: serving turns to draining, or straight
    /// to stopped when nothing is in flight, and the run is then draining
    /// or done accordingly.
    pub fn shutdown_signal_received(&mut self)
        requires
            old(self).wf(),
            old(self).http_enabled,
            old(self).phase == RunPhase::AfterEntry,
            spec_http_state(old(self).handle@) matches HttpState::Serving { .. },
        ensures
            final(self).wf(),
            final(self).http_enabled,
            final(self).template == old(self).template,
            final(self).handle@.store == old(self).handle@.store,
            final(self).handle@.linked == old(self).handle@.linked,
            spec_http_state(final(self).handle@) == spec_begin_shutdown(
                spec_http_state(old(self).handle@),
            ),
            final(self).phase == (if spec_begin_shutdown(spec_http_state(old(self).handle@))
                == HttpState::Stopped {
                RunPhase::Done
            } else {
                RunPhase::Draining
            }),
    {
        let st = self.http_state();
        let st2 = st.begin_shutdown();
        self.set_http_state(st2);
        match st2 {
            HttpState::Stopped => {
                self.phase = RunPhase::Done;
            },
            _ => {
                self.phase = RunPhase::Draining;
            },
        }
    }

    /// Offers an inbound connection to the HTTP backend: accepted only
    /// while serving below capacity, never after the shutdown signal.
    pub fn request_arrived(&mut self) -> (accepted: bool)
        requires
            old(self).wf(),
            old(self).http_enabled,
        ensures
            final(self).wf(),
            final(self).http_enabled,
            final(self).phase == old(self).phase,
            final(self).template == old(self).template,
            final(self).handle@.store == old(self).handle@.store,
            final(self).handle@.linked == old(self).handle@.linked,
            (spec_http_state(final(self).handle@), accepted) == spec_request_arrived(
                spec_http_state(old(self).handle@),
            ),
            !(spec_http_state(old(self).handle@) matches HttpState::Serving { .. })
                ==> !accepted,
    {
        let st = self.http_state();
        let (st2, accepted) = st.request_arrived();
        self.set_http_state(st2);
        accepted
    }

    /// Records one in-flight request's completion; the last one of a
    /// drain stops the backend and ends the run.
    pub fn request_finished(&mut self)
        requires
            old(self).wf(),
            old(self).http_enabled,
            spec_http_state(old(self).handle@).spec_in_flight() >= 1,
        ensures
            final(self).wf(),
            final(self).http_enabled,
            final(self).template == old(self).template,
            final(self).handle@.store == old(self).handle@.store,
            final(self).handle@.linked == old(self).handle@.linked,
            spec_http_state(final(self).handle@) == spec_request_finished(
                spec_http_state(old(self).handle@),
            ),
            final(self).phase == (if old(self).phase == RunPhase::Draining
                && spec_request_finished(spec_http_state(old(self).handle@))
                == HttpState::Stopped {
                RunPhase::Done
            } else {
                old(self).phase
            }),
    {
        let st = self.http_state();
        let st2 = st.request_finished();
        self.set_http_state(st2);
        let draining = self.phase == RunPhase::Draining;
        match st2 {
            HttpState::Stopped => {
                if draining {
                    self.phase = RunPhase::Done;
                }
            },
            _ => {},
        }
    }

    /// Whether the inbound-HTTP backend has fully stopped.
    pub fn server_stopped(&self) -> (r: bool)
        requires
            self.wf(),
            self.http_enabled,
        ensures
            r == (spec_http_state(self.handle@) == HttpState::Stopped),
    {
        let st = self.http_state();
        match st {
            HttpState::Stopped => true,
            _ => false,
        }
    }

    /// Whether the run is over.
    pub fn is_done(&self) -> (r: bool)
        ensures
            r == (self.phase == RunPhase::Done),
    {
        self.phase == RunPhase::Done
    }
}

/// Prepares one guest run: builds the handle; when the inbound-HTTP family
/// was linked, builds a second, independent handle from the same manifest
/// as a guest-instantiation template and attaches it to the HTTP backend,
/// which then starts serving with nothing in flight. Any build error
/// aborts the run before the guest ever executes.
pub fn prepare_run(manifest: &Manifest, manifest_path: &str) -> (r: Result<RunPlan, BuildError>)
    ensures
        match r {
            Ok(plan) => ({
                let b = spec_build(manifest@, manifest_path@);
                &&& b is Ok
                &&& plan.wf()
                &&& plan.phase == RunPhase::BeforeEntry
                &&& plan.http_enabled == b->Ok_0.linked.contains(CapabilityFamily::HttpServer)
                &&& (plan.http_enabled ==> (plan.template matches Some(t) && t@ == b->Ok_0))
                &&& (plan.http_enabled ==> plan.handle@.store == b->Ok_0.store
                    && plan.handle@.linked == b->Ok_0.linked && plan.handle@.attachments
                    == b->Ok_0.attachments.update(
                    spec_http_index(b->Ok_0),
                    BackendModel::HttpServer { state: HttpState::Serving { in_flight: 0u64 } },
                ) && spec_http_state(plan.handle@) == (HttpState::Serving { in_flight: 0u64 }))
                &&& (!plan.http_enabled ==> plan.handle@ == b->Ok_0 && plan.template is None)
            }),
            Err(e) => spec_build(manifest@, manifest_path@) == Err::<HandleModel, BuildError>(e),
        },
{
    let handle = match build_store_instance(manifest, manifest_path) {
        Ok(h) => h,
        Err(e) => {
            return Err(e);
        },
    };
    let http_enabled = linked_contains(&handle.linked, CapabilityFamily::HttpServer);
    if !http_enabled {
        return Ok(
            RunPlan { handle, template: None, http_enabled: false, phase: RunPhase::BeforeEntry },
        );
    }
    let template = match build_store_instance(manifest, manifest_path) {
        Ok(t) => t,
        Err(e) => {
            return Err(e);
        },
    };
    let mut plan = RunPlan {
        handle,
        template: Some(template),
        http_enabled: true,
        phase: RunPhase::BeforeEntry,
    };
    proof {
        let m = manifest@;
        let path = manifest_path@;
        let v = spec_parse_version(m.spec_version)->Some_0;
        let h0 = spec_init_handle();
        crate::laws::lemma_build_ok_conditions(v, m.secret_store, path, m.capabilities, h0);
        crate::laws::lemma_build_from_success(v, m.secret_store, path, m.capabilities, h0);
        let atts = plan.handle@.attachments;
        let built = crate::engine::spec_build_from(v, m.secret_store, path, m.capabilities, h0);
        assert(built == spec_build(m, path));
        assert(built->Ok_0 == plan.handle@);
        assert(built->Ok_0.linked.contains(CapabilityFamily::HttpServer));
        assert(!h0.linked.contains(CapabilityFamily::HttpServer));
        assert(exists|k: int|
            0 <= k < m.capabilities.len() && crate::laws::spec_family_opt(v, m.capabilities[k])
                == Some(CapabilityFamily::HttpServer));
        let k = choose|k: int|
            0 <= k < m.capabilities.len() && crate::laws::spec_family_opt(v, m.capabilities[k])
                == Some(CapabilityFamily::HttpServer);
        assert(spec_family_of_backend(atts[k]) == CapabilityFamily::HttpServer);
        assert(spec_scheme_of_backend(atts[k]) == "http"@);
        lemma_find_last_props(atts, "http"@);
        let j = spec_http_index(plan.handle@);
        lemma_schemes_distinct(
            spec_family_of_backend(atts[j]),
            CapabilityFamily::HttpServer,
        );
        assert(atts[j] matches BackendModel::HttpServer { .. });
        assert(atts[j] == (BackendModel::HttpServer { state: HttpState::Linked }));
        assert(plan.wf());
    }
    let st = plan.http_state();
    let st2 = st.attach_template();
    plan.set_http_state(st2);
    Ok(plan)
}

} // verus!
