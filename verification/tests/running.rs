//! The run coordinator and the inbound-HTTP lifecycle.

use slight::{
    manifest_requests_http, prepare_run, BuildError, CapabilityDeclaration, HttpState, Manifest,
    RunPhase,
};

fn decl(name: &str, resource: Option<&str>) -> CapabilityDeclaration {
    CapabilityDeclaration {
        name: name.to_string(),
        resource: resource.map(|r| r.to_string()),
        configs: Vec::new(),
    }
}

fn manifest(version: &str, caps: Vec<CapabilityDeclaration>) -> Manifest {
    Manifest {
        spec_version: version.to_string(),
        secret_store: None,
        capabilities: caps,
    }
}

#[test]
fn http_run_serves_drains_and_stops() {
    // scenario: one HTTP declaration; the build succeeds, a template is
    // attached, the entry point runs, the shutdown signal drains the
    // server, and the run returns success
    let m = manifest("0.2", vec![decl("web", Some("http"))]);
    let mut plan = prepare_run(&m, "app.toml").expect("build should succeed");
    assert!(plan.http_enabled);
    assert!(plan.template.is_some());
    assert_eq!(plan.phase, RunPhase::BeforeEntry);

    plan.record_entry_outcome(true).expect("entry point succeeded");
    assert_eq!(plan.phase, RunPhase::AfterEntry);
    assert!(plan.awaits_shutdown());

    // two requests arrive while serving
    assert!(plan.request_arrived());
    assert!(plan.request_arrived());

    plan.shutdown_signal_received();
    assert_eq!(plan.phase, RunPhase::Draining);
    // draining refuses new connections
    assert!(!plan.request_arrived());

    plan.request_finished();
    assert!(!plan.server_stopped());
    plan.request_finished();
    assert!(plan.server_stopped());
    assert!(plan.is_done());
}

#[test]
fn http_run_with_nothing_in_flight_stops_at_once() {
    let m = manifest("0.2", vec![decl("web", Some("http"))]);
    let mut plan = prepare_run(&m, "app.toml").expect("build should succeed");
    plan.record_entry_outcome(true).expect("entry point succeeded");
    plan.shutdown_signal_received();
    assert!(plan.server_stopped());
    assert!(plan.is_done());
}

#[test]
fn non_http_run_ends_after_the_entry_point() {
    let m = manifest("0.2", vec![decl("kv", Some("keyvalue.filesystem"))]);
    let mut plan = prepare_run(&m, "app.toml").expect("build should succeed");
    assert!(!plan.http_enabled);
    assert!(plan.template.is_none());
    plan.record_entry_outcome(true).expect("entry point succeeded");
    assert!(!plan.awaits_shutdown());
    plan.finish();
    assert!(plan.is_done());
}

#[test]
fn failing_entry_point_fails_the_run() {
    let m = manifest("0.2", vec![decl("kv", Some("keyvalue.filesystem"))]);
    let mut plan = prepare_run(&m, "app.toml").expect("build should succeed");
    let r = plan.record_entry_outcome(false);
    assert_eq!(r, Err(BuildError::GuestExecutionError));
    assert!(plan.is_done());
}

#[test]
fn prepare_run_propagates_build_errors() {
    let m = manifest("0.2", vec![decl("a", Some("http")), decl("b", Some("http"))]);
    assert_eq!(
        prepare_run(&m, "app.toml").err(),
        Some(BuildError::CapabilityAlreadyLinked)
    );
    let bad = manifest("9.9", vec![]);
    assert_eq!(
        prepare_run(&bad, "app.toml").err(),
        Some(BuildError::UnsupportedSpecVersion)
    );
}

#[test]
fn manifest_http_detection_matches_the_declarations() {
    let with_http = manifest("0.2", vec![decl("web", Some("http"))]);
    assert_eq!(manifest_requests_http(&with_http), Ok(true));

    let without = manifest("0.2", vec![decl("kv", Some("keyvalue.filesystem"))]);
    assert_eq!(manifest_requests_http(&without), Ok(false));

    let old_shape = manifest("0.1", vec![decl("http", None)]);
    assert_eq!(manifest_requests_http(&old_shape), Ok(true));

    let bad_version = manifest("1.0", vec![decl("web", Some("http"))]);
    assert_eq!(
        manifest_requests_http(&bad_version),
        Err(BuildError::UnsupportedSpecVersion)
    );

    let missing = manifest("0.2", vec![decl("kv", None)]);
    assert_eq!(
        manifest_requests_http(&missing),
        Err(BuildError::MissingResourceField)
    );
}

#[test]
fn http_state_machine_walks_its_lifecycle() {
    let linked = HttpState::Linked;
    let serving = linked.attach_template();
    assert_eq!(serving, HttpState::Serving { in_flight: 0 });

    let (serving, accepted) = serving.request_arrived();
    assert!(accepted);
    assert_eq!(serving, HttpState::Serving { in_flight: 1 });

    let draining = serving.begin_shutdown();
    assert_eq!(draining, HttpState::Draining { in_flight: 1 });
    let (still, refused) = draining.request_arrived();
    assert!(!refused);
    assert_eq!(still, draining);

    assert_eq!(draining.request_finished(), HttpState::Stopped);
}

#[test]
fn error_messages_name_their_cause() {
    assert_eq!(
        BuildError::UnsupportedSpecVersion.message(),
        "unsupported spec version"
    );
    assert_eq!(BuildError::MissingResourceField.message(), "missing resource field");
    assert_eq!(
        BuildError::DuplicateCapabilityName.message(),
        "cannot add capabilities of the same name"
    );
    assert_eq!(
        BuildError::UnknownCapabilityIdentifier.message(),
        "invalid capability identifier"
    );
    assert!(!BuildError::CapabilityAlreadyLinked.message().is_empty());
    assert!(!BuildError::WrongCapabilityType.message().is_empty());
    assert!(!BuildError::GuestExecutionError.message().is_empty());
    assert!(!BuildError::SignalInstallationError.message().is_empty());
}
