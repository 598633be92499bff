//! Capability resolution and linking engine for a sandboxed guest host.
//!
//! A manifest declares which infrastructure capabilities (key-value storage,
//! distributed locking, messaging, relational access, configuration, HTTP) a
//! guest program needs. This crate resolves each declaration to a capability
//! family through a static identifier registry, registers it in a
//! write-once state store keyed by the declaration's name, links each
//! family's host functions at most once per build, and coordinates the
//! lifecycle of the one family that outlives the guest's entry point
//! (inbound HTTP serving).

pub mod engine;
pub mod error;
pub mod family;
pub mod http;
pub mod laws;
pub mod manifest;
pub mod run;
pub mod store;
pub mod text;

pub use engine::{build_store_instance, get_resource, BackendInstance, GuestBuildHandle};
pub use error::BuildError;
pub use family::{resolve, CapabilityFamily};
pub use http::HttpState;
pub use manifest::{
    manifest_requests_http, parse_spec_version, CapabilityDeclaration, Manifest, SpecVersion,
};
pub use run::{prepare_run, RunPhase, RunPlan};
pub use store::{CapabilityStateEntry, CapabilityStore};
