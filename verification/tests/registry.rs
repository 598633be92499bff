//! The identifier registry: every identifier in a family's table resolves
//! to that family, and nothing else resolves at all.

use slight::{resolve, BuildError, CapabilityFamily};

fn ok(identifier: &str) -> CapabilityFamily {
    resolve(identifier).expect("identifier should resolve")
}

#[test]
fn keyvalue_identifiers_resolve() {
    for id in [
        "kv.filesystem",
        "kv.azblob",
        "kv.awsdynamodb",
        "kv.redis",
        "keyvalue.filesystem",
        "keyvalue.azblob",
        "keyvalue.awsdynamodb",
        "keyvalue.redis",
    ] {
        assert_eq!(ok(id), CapabilityFamily::KeyValue);
    }
}

#[test]
fn distributed_locking_identifiers_resolve() {
    for id in ["lockd.etcd", "distributed_locking.etcd"] {
        assert_eq!(ok(id), CapabilityFamily::DistributedLocking);
    }
}

#[test]
fn messaging_identifiers_resolve() {
    for id in [
        "pubsub.confluent_apache_kafka",
        "pubsub.mosquitto",
        "messaging.confluent_apache_kafka",
        "messaging.mosquitto",
        "mq.azsbus",
        "mq.filesystem",
        "messaging.azsbus",
        "messaging.filesystem",
    ] {
        assert_eq!(ok(id), CapabilityFamily::Messaging);
    }
}

#[test]
fn configs_identifiers_resolve() {
    for id in ["configs.usersecrets", "configs.envvars", "configs.azapp"] {
        assert_eq!(ok(id), CapabilityFamily::RuntimeConfigs);
    }
}

#[test]
fn sql_and_http_identifiers_resolve() {
    assert_eq!(ok("sql.postgres"), CapabilityFamily::Sql);
    assert_eq!(ok("http"), CapabilityFamily::HttpServer);
    assert_eq!(ok("http-client"), CapabilityFamily::HttpClient);
}

#[test]
fn tables_are_pairwise_disjoint() {
    let all = [
        "kv.filesystem",
        "kv.azblob",
        "kv.awsdynamodb",
        "kv.redis",
        "keyvalue.filesystem",
        "keyvalue.azblob",
        "keyvalue.awsdynamodb",
        "keyvalue.redis",
        "lockd.etcd",
        "distributed_locking.etcd",
        "pubsub.confluent_apache_kafka",
        "pubsub.mosquitto",
        "messaging.confluent_apache_kafka",
        "messaging.mosquitto",
        "mq.azsbus",
        "mq.filesystem",
        "messaging.azsbus",
        "messaging.filesystem",
        "configs.usersecrets",
        "configs.envvars",
        "configs.azapp",
        "sql.postgres",
        "http",
        "http-client",
    ];
    // each identifier resolves to exactly one family, and the identifiers
    // are pairwise distinct strings, so no identifier sits in two tables
    for (i, a) in all.iter().enumerate() {
        assert!(resolve(a).is_ok());
        for (j, b) in all.iter().enumerate() {
            if i != j {
                assert_ne!(a, b);
            }
        }
    }
}

#[test]
fn unknown_identifiers_are_rejected() {
    for id in ["", "kv", "keyvalue", "kv.mysql", "blob.azblob", "HTTP", "http-server"] {
        assert_eq!(resolve(id), Err(BuildError::UnknownCapabilityIdentifier));
    }
}
