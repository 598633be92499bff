//! The capability state store and typed backend retrieval.

use slight::{
    build_store_instance, get_resource, BackendInstance, BuildError, CapabilityDeclaration,
    CapabilityFamily, CapabilityStateEntry, CapabilityStore, Manifest,
};

fn entry(name: &str, rid: &str) -> CapabilityStateEntry {
    CapabilityStateEntry {
        secret_store: None,
        resource_identifier: rid.to_string(),
        name: name.to_string(),
        configs: Vec::new(),
        manifest_path: "app.toml".to_string(),
    }
}

#[test]
fn first_write_wins_and_second_fails() {
    let mut store = CapabilityStore::new();
    assert_eq!(store.insert(entry("a", "kv.filesystem")), Ok(()));
    assert_eq!(store.len(), 1);
    assert_eq!(
        store.insert(entry("a", "sql.postgres")),
        Err(BuildError::DuplicateCapabilityName)
    );
    // the store is unchanged: the first write won
    assert_eq!(store.len(), 1);
    let kept = store.get("a").expect("entry should exist");
    assert_eq!(kept.resource_identifier, "kv.filesystem");
}

#[test]
fn lookups_see_only_present_names() {
    let mut store = CapabilityStore::new();
    assert!(!store.contains_name("a"));
    assert!(store.get("a").is_none());
    store.insert(entry("a", "kv.redis")).expect("fresh name");
    store.insert(entry("b", "mq.azsbus")).expect("fresh name");
    assert!(store.contains_name("a"));
    assert!(store.contains_name("b"));
    assert!(!store.contains_name("c"));
    assert_eq!(store.get("b").expect("entry should exist").resource_identifier, "mq.azsbus");
}

#[test]
fn snapshots_are_independent_copies() {
    let mut store = CapabilityStore::new();
    store.insert(entry("a", "kv.redis")).expect("fresh name");
    let snapshot = store.clone();
    store.insert(entry("b", "mq.azsbus")).expect("fresh name");
    assert_eq!(store.len(), 2);
    assert_eq!(snapshot.len(), 1);
    assert!(!snapshot.contains_name("b"));
}

fn two_family_handle() -> slight::GuestBuildHandle {
    let m = Manifest {
        spec_version: "0.2".to_string(),
        secret_store: None,
        capabilities: vec![
            CapabilityDeclaration {
                name: "kv".to_string(),
                resource: Some("keyvalue.filesystem".to_string()),
                configs: Vec::new(),
            },
            CapabilityDeclaration {
                name: "db".to_string(),
                resource: Some("sql.postgres".to_string()),
                configs: Vec::new(),
            },
        ],
    };
    build_store_instance(&m, "app.toml").expect("build should succeed")
}

#[test]
fn retrieval_by_scheme_checks_the_expected_family() {
    let handle = two_family_handle();
    let i = get_resource(&handle, "keyvalue", CapabilityFamily::KeyValue)
        .expect("keyvalue backend is attached");
    match &handle.attachments[i] {
        BackendInstance::KeyValue { resource_identifier, snapshot } => {
            assert_eq!(*resource_identifier, "keyvalue.filesystem");
            // the snapshot was taken right after this declaration's own
            // registration: the later declaration is absent from it
            assert!(snapshot.contains_name("kv"));
            assert!(!snapshot.contains_name("db"));
        },
        _ => panic!("wrong backend attached"),
    }
    assert_eq!(
        get_resource(&handle, "sql", CapabilityFamily::KeyValue),
        Err(BuildError::WrongCapabilityType)
    );
    assert!(get_resource(&handle, "sql", CapabilityFamily::Sql).is_ok());
}
