//! The linking engine: manifests build, fail, deduplicate and link as the
//! contracts state.

use slight::{
    build_store_instance, BuildError, CapabilityDeclaration, CapabilityFamily, Manifest,
};

fn decl(name: &str, resource: Option<&str>) -> CapabilityDeclaration {
    CapabilityDeclaration {
        name: name.to_string(),
        resource: resource.map(|r| r.to_string()),
        configs: Vec::new(),
    }
}

fn manifest(version: &str, secret_store: Option<&str>, caps: Vec<CapabilityDeclaration>) -> Manifest {
    Manifest {
        spec_version: version.to_string(),
        secret_store: secret_store.map(|s| s.to_string()),
        capabilities: caps,
    }
}

#[test]
fn duplicate_names_fail_the_build() {
    // two declarations under one name, resource identifiers differing
    let m = manifest(
        "0.2",
        None,
        vec![
            decl("shared", Some("keyvalue.filesystem")),
            decl("shared", Some("sql.postgres")),
        ],
    );
    let r = build_store_instance(&m, "app.toml");
    assert_eq!(r.err(), Some(BuildError::DuplicateCapabilityName));
}

#[test]
fn duplicate_names_fail_under_either_version() {
    let m = manifest(
        "0.1",
        None,
        vec![decl("kv.redis", None), decl("kv.redis", None)],
    );
    let r = build_store_instance(&m, "app.toml");
    assert_eq!(r.err(), Some(BuildError::DuplicateCapabilityName));
}

#[test]
fn two_http_declarations_fail_the_build() {
    let m = manifest(
        "0.2",
        None,
        vec![decl("first", Some("http")), decl("second", Some("http"))],
    );
    let r = build_store_instance(&m, "app.toml");
    assert_eq!(r.err(), Some(BuildError::CapabilityAlreadyLinked));
}

#[test]
fn two_http_client_declarations_fail_the_build() {
    let m = manifest(
        "0.2",
        None,
        vec![decl("a", Some("http-client")), decl("b", Some("http-client"))],
    );
    let r = build_store_instance(&m, "app.toml");
    assert_eq!(r.err(), Some(BuildError::CapabilityAlreadyLinked));
}

#[test]
fn same_family_twice_links_once_and_stores_both() {
    // scenario: one key-value declaration and a second under another name
    // with the same identifier
    let m = manifest(
        "0.2",
        None,
        vec![
            decl("kv1", Some("keyvalue.filesystem")),
            decl("kv2", Some("keyvalue.filesystem")),
        ],
    );
    let handle = build_store_instance(&m, "app.toml").expect("build should succeed");
    assert_eq!(handle.store.len(), 2);
    assert!(handle.store.contains_name("kv1"));
    assert!(handle.store.contains_name("kv2"));
    // one link event for the family, although two backends are attached
    assert_eq!(handle.linked.len(), 1);
    assert_eq!(handle.linked[0], CapabilityFamily::KeyValue);
    assert_eq!(handle.attachments.len(), 2);
}

#[test]
fn http_declaration_name_does_not_reserve_a_store_name() {
    // the inbound-HTTP family owns no state entry, so its declaration's
    // name stays free for a later stored declaration
    let m = manifest(
        "0.2",
        None,
        vec![decl("x", Some("http")), decl("x", Some("kv.filesystem"))],
    );
    let handle = build_store_instance(&m, "app.toml").expect("build should succeed");
    assert_eq!(handle.store.len(), 1);
    assert!(handle.store.contains_name("x"));
}

#[test]
fn unknown_identifier_fails_the_build() {
    let m = manifest("0.2", None, vec![decl("x", Some("keyvalue.mysql"))]);
    let r = build_store_instance(&m, "app.toml");
    assert_eq!(r.err(), Some(BuildError::UnknownCapabilityIdentifier));
}

#[test]
fn missing_resource_field_fails_before_linking() {
    // scenario: a `0.2` manifest whose declaration has no `resource`
    let m = manifest("0.2", None, vec![decl("kv1", None)]);
    let r = build_store_instance(&m, "app.toml");
    assert_eq!(r.err(), Some(BuildError::MissingResourceField));
}

#[test]
fn unsupported_spec_version_fails_whatever_the_contents() {
    // scenario: `specversion = "9.9"`
    let m = manifest(
        "9.9",
        None,
        vec![decl("kv1", Some("keyvalue.filesystem"))],
    );
    assert_eq!(
        build_store_instance(&m, "app.toml").err(),
        Some(BuildError::UnsupportedSpecVersion)
    );
    let empty = manifest("9.9", None, Vec::new());
    assert_eq!(
        build_store_instance(&empty, "app.toml").err(),
        Some(BuildError::UnsupportedSpecVersion)
    );
}

#[test]
fn version_zero_one_uses_the_name_as_identifier() {
    let m = manifest(
        "0.1",
        Some("configs.envvars"),
        vec![decl("kv.filesystem", None)],
    );
    let handle = build_store_instance(&m, "folder/app.toml").expect("build should succeed");
    assert_eq!(handle.store.len(), 1);
    let entry = handle.store.get("kv.filesystem").expect("entry should exist");
    assert_eq!(entry.name, "kv.filesystem");
    assert_eq!(entry.resource_identifier, "kv.filesystem");
    // the 0.1 shape records the manifest's secret store in the entry
    assert_eq!(entry.secret_store.as_deref(), Some("configs.envvars"));
    assert_eq!(entry.manifest_path, "folder/app.toml");
}

#[test]
fn version_zero_two_reads_the_resource_field() {
    let mut d = decl("mystore", Some("keyvalue.azblob"));
    d.configs = vec![
        ("AZURE_ACCOUNT".to_string(), "SECRET-REDACTED".to_string()),
        ("AZURE_KEY".to_string(), "SECRET-REDACTED".to_string()),
    ];
    let m = manifest("0.2", Some("configs.envvars"), vec![d]);
    let handle = build_store_instance(&m, "app.toml").expect("build should succeed");
    let entry = handle.store.get("mystore").expect("entry should exist");
    assert_eq!(entry.resource_identifier, "keyvalue.azblob");
    // the 0.2 shape keeps no secret-store hint in the entry
    assert_eq!(entry.secret_store, None);
    assert_eq!(entry.configs.len(), 2);
    assert_eq!(entry.configs[0].0, "AZURE_ACCOUNT");
}

#[test]
fn http_declaration_gets_no_store_entry_but_http_client_does() {
    let m = manifest(
        "0.2",
        None,
        vec![decl("web", Some("http")), decl("outbound", Some("http-client"))],
    );
    let handle = build_store_instance(&m, "app.toml").expect("build should succeed");
    assert!(!handle.store.contains_name("web"));
    assert!(handle.store.contains_name("outbound"));
    assert_eq!(handle.store.len(), 1);
    assert_eq!(handle.linked.len(), 2);
    assert_eq!(handle.attachments.len(), 2);
}

#[test]
fn mixed_families_link_each_once_in_manifest_order() {
    let m = manifest(
        "0.2",
        None,
        vec![
            decl("a", Some("kv.filesystem")),
            decl("b", Some("mq.filesystem")),
            decl("c", Some("keyvalue.redis")),
            decl("d", Some("sql.postgres")),
            decl("e", Some("messaging.mosquitto")),
        ],
    );
    let handle = build_store_instance(&m, "app.toml").expect("build should succeed");
    assert_eq!(handle.store.len(), 5);
    assert_eq!(
        handle.linked,
        vec![
            CapabilityFamily::KeyValue,
            CapabilityFamily::Messaging,
            CapabilityFamily::Sql,
        ]
    );
    assert_eq!(handle.attachments.len(), 5);
}

#[test]
fn a_failing_declaration_aborts_the_whole_build() {
    // the first declaration is fine; the second is unknown; no handle comes out
    let m = manifest(
        "0.2",
        None,
        vec![decl("good", Some("kv.filesystem")), decl("bad", Some("nonsense"))],
    );
    let r = build_store_instance(&m, "app.toml");
    assert!(r.is_err());
    assert_eq!(r.err(), Some(BuildError::UnknownCapabilityIdentifier));
}
