//! The identifier registry: a static mapping from resource identifiers to
//! capability families.
//!
//! Each family owns a fixed table of recognized identifiers; the tables are
//! pairwise disjoint, so an identifier resolves to at most one family, and an
//! identifier in no table resolves to none.

use vstd::prelude::*;

use crate::error::BuildError;
use crate::text::str_eq;

verus! {

/// The fixed, closed set of capability families a declaration can resolve to.
#[derive(Clone, Copy, Debug, PartialEq, Eq, Structural)]
pub enum CapabilityFamily {
    KeyValue,
    DistributedLocking,
    Messaging,
    RuntimeConfigs,
    Sql,
    HttpServer,
    HttpClient,
}

/// The key-value family's table of recognized resource identifiers.
pub open spec fn is_keyvalue_identifier(s: Seq<char>) -> bool {
    ||| s == "kv.filesystem"@
    ||| s == "kv.azblob"@
    ||| s == "kv.awsdynamodb"@
    ||| s == "kv.redis"@
    ||| s == "keyvalue.filesystem"@
    ||| s == "keyvalue.azblob"@
    ||| s == "keyvalue.awsdynamodb"@
    ||| s == "keyvalue.redis"@
}

/// The distributed-locking family's table of recognized resource identifiers.
pub open spec fn is_distributed_locking_identifier(s: Seq<char>) -> bool {
    ||| s == "lockd.etcd"@
    ||| s == "distributed_locking.etcd"@
}

/// The messaging family's table of recognized resource identifiers.
pub open spec fn is_messaging_identifier(s: Seq<char>) -> bool {
    ||| s == "pubsub.confluent_apache_kafka"@
    ||| s == "pubsub.mosquitto"@
    ||| s == "messaging.confluent_apache_kafka"@
    ||| s == "messaging.mosquitto"@
    ||| s == "mq.azsbus"@
    ||| s == "mq.filesystem"@
    ||| s == "messaging.azsbus"@
    ||| s == "messaging.filesystem"@
}

/// The configuration family's table of recognized resource identifiers.
pub open spec fn is_configs_identifier(s: Seq<char>) -> bool {
    ||| s == "configs.usersecrets"@
    ||| s == "configs.envvars"@
    ||| s == "configs.azapp"@
}

/// The relational family's table of recognized resource identifiers.
pub open spec fn is_sql_identifier(s: Seq<char>) -> bool {
    s == "sql.postgres"@
}

/// Membership of an identifier in one family's static table.
pub open spec fn in_family_table(f: CapabilityFamily, s: Seq<char>) -> bool {
    match f {
        CapabilityFamily::KeyValue => is_keyvalue_identifier(s),
        CapabilityFamily::DistributedLocking => is_distributed_locking_identifier(s),
        CapabilityFamily::Messaging => is_messaging_identifier(s),
        CapabilityFamily::RuntimeConfigs => is_configs_identifier(s),
        CapabilityFamily::Sql => is_sql_identifier(s),
        CapabilityFamily::HttpServer => s == "http"@,
        CapabilityFamily::HttpClient => s == "http-client"@,
    }
}

/// The family an identifier resolves to, if any: the one family whose table
/// lists it.
pub open spec fn spec_resolve(s: Seq<char>) -> Option<CapabilityFamily> {
    if is_keyvalue_identifier(s) {
        Some(CapabilityFamily::KeyValue)
    } else if is_distributed_locking_identifier(s) {
        Some(CapabilityFamily::DistributedLocking)
    } else if is_messaging_identifier(s) {
        Some(CapabilityFamily::Messaging)
    } else if is_configs_identifier(s) {
        Some(CapabilityFamily::RuntimeConfigs)
    } else if is_sql_identifier(s) {
        Some(CapabilityFamily::Sql)
    } else if s == "http"@ {
        Some(CapabilityFamily::HttpServer)
    } else if s == "http-client"@ {
        Some(CapabilityFamily::HttpClient)
    } else {
        None
    }
}

fn is_keyvalue(identifier: &str) -> (r: bool)
    ensures
        r == is_keyvalue_identifier(identifier@),
{
    str_eq(identifier, "kv.filesystem") || str_eq(identifier, "kv.azblob") || str_eq(
        identifier,
        "kv.awsdynamodb",
    ) || str_eq(identifier, "kv.redis") || str_eq(identifier, "keyvalue.filesystem") || str_eq(
        identifier,
        "keyvalue.azblob",
    ) || str_eq(identifier, "keyvalue.awsdynamodb") || str_eq(identifier, "keyvalue.redis")
}

fn is_distributed_locking(identifier: &str) -> (r: bool)
    ensures
        r == is_distributed_locking_identifier(identifier@),
{
    str_eq(identifier, "lockd.etcd") || str_eq(identifier, "distributed_locking.etcd")
}

fn is_messaging(identifier: &str) -> (r: bool)
    ensures
        r == is_messaging_identifier(identifier@),
{
    str_eq(identifier, "pubsub.confluent_apache_kafka") || str_eq(identifier, "pubsub.mosquitto")
        || str_eq(identifier, "messaging.confluent_apache_kafka") || str_eq(
        identifier,
        "messaging.mosquitto",
    ) || str_eq(identifier, "mq.azsbus") || str_eq(identifier, "mq.filesystem") || str_eq(
        identifier,
        "messaging.azsbus",
    ) || str_eq(identifier, "messaging.filesystem")
}

fn is_configs(identifier: &str) -> (r: bool)
    ensures
        r == is_configs_identifier(identifier@),
{
    str_eq(identifier, "configs.usersecrets") || str_eq(identifier, "configs.envvars") || str_eq(
        identifier,
        "configs.azapp",
    )
}

fn is_sql(identifier: &str) -> (r: bool)
    ensures
        r == is_sql_identifier(identifier@),
{
    str_eq(identifier, "sql.postgres")
}

/// Resolves a resource identifier to its capability family, failing with
/// `UnknownCapabilityIdentifier` exactly when the identifier is listed in no
/// family's table.
pub fn resolve(identifier: &str) -> (r: Result<CapabilityFamily, BuildError>)
    ensures
        match spec_resolve(identifier@) {
            Some(f) => r == Ok::<CapabilityFamily, BuildError>(f),
            None => r == Err::<CapabilityFamily, BuildError>(
                BuildError::UnknownCapabilityIdentifier,
            ),
        },
{
    if is_keyvalue(identifier) {
        Ok(CapabilityFamily::KeyValue)
    } else if is_distributed_locking(identifier) {
        Ok(CapabilityFamily::DistributedLocking)
    } else if is_messaging(identifier) {
        Ok(CapabilityFamily::Messaging)
    } else if is_configs(identifier) {
        Ok(CapabilityFamily::RuntimeConfigs)
    } else if is_sql(identifier) {
        Ok(CapabilityFamily::Sql)
    } else if str_eq(identifier, "http") {
        Ok(CapabilityFamily::HttpServer)
    } else if str_eq(identifier, "http-client") {
        Ok(CapabilityFamily::HttpClient)
    } else {
        Err(BuildError::UnknownCapabilityIdentifier)
    }
}

/// The conventional name under which a family's backend instances are
/// attached to the guest build.
pub open spec fn spec_scheme_of(f: CapabilityFamily) -> Seq<char> {
    match f {
        CapabilityFamily::KeyValue => "keyvalue"@,
        CapabilityFamily::DistributedLocking => "distributed_locking"@,
        CapabilityFamily::Messaging => "messaging"@,
        CapabilityFamily::RuntimeConfigs => "configs"@,
        CapabilityFamily::Sql => "sql"@,
        CapabilityFamily::HttpServer => "http"@,
        CapabilityFamily::HttpClient => "http-client"@,
    }
}

/// The conventional attachment name of a family, as a string.
pub fn scheme_name(f: CapabilityFamily) -> (r: String)
    ensures
        r@ == spec_scheme_of(f),
{
    match f {
        CapabilityFamily::KeyValue => "keyvalue".to_owned(),
        CapabilityFamily::DistributedLocking => "distributed_locking".to_owned(),
        CapabilityFamily::Messaging => "messaging".to_owned(),
        CapabilityFamily::RuntimeConfigs => "configs".to_owned(),
        CapabilityFamily::Sql => "sql".to_owned(),
        CapabilityFamily::HttpServer => "http".to_owned(),
        CapabilityFamily::HttpClient => "http-client".to_owned(),
    }
}

/// The seven conventional scheme names are pairwise distinct: an
/// attachment name picks out one family.
pub proof fn lemma_schemes_distinct(f1: CapabilityFamily, f2: CapabilityFamily)
    requires
        spec_scheme_of(f1) == spec_scheme_of(f2),
    ensures
        f1 == f2,
{
    reveal_strlit("keyvalue");
    reveal_strlit("distributed_locking");
    reveal_strlit("messaging");
    reveal_strlit("configs");
    reveal_strlit("sql");
    reveal_strlit("http");
    reveal_strlit("http-client");
    assert("keyvalue"@[0] == 'k');
    assert("distributed_locking"@[0] == 'd');
    assert("messaging"@[0] == 'm');
    assert("configs"@[0] == 'c');
    assert("sql"@[0] == 's');
    assert("http"@[0] == 'h' && "http"@.len() == 4);
    assert("http-client"@[0] == 'h' && "http-client"@.len() == 11);
}

proof fn registry_literal_facts()
    ensures
        "kv.filesystem"@[0] == 'k',
        "kv.azblob"@[0] == 'k',
        "kv.awsdynamodb"@[0] == 'k',
        "kv.redis"@[0] == 'k',
        "keyvalue.filesystem"@[0] == 'k',
        "keyvalue.azblob"@[0] == 'k',
        "keyvalue.awsdynamodb"@[0] == 'k',
        "keyvalue.redis"@[0] == 'k',
        "lockd.etcd"@[0] == 'l',
        "distributed_locking.etcd"@[0] == 'd',
        "pubsub.confluent_apache_kafka"@[0] == 'p',
        "pubsub.mosquitto"@[0] == 'p',
        "messaging.confluent_apache_kafka"@[0] == 'm',
        "messaging.mosquitto"@[0] == 'm',
        "mq.azsbus"@[0] == 'm',
        "mq.filesystem"@[0] == 'm',
        "messaging.azsbus"@[0] == 'm',
        "messaging.filesystem"@[0] == 'm',
        "configs.usersecrets"@[0] == 'c',
        "configs.envvars"@[0] == 'c',
        "configs.azapp"@[0] == 'c',
        "sql.postgres"@[0] == 's',
        "http"@[0] == 'h' && "http"@.len() == 4,
        "http-client"@[0] == 'h' && "http-client"@.len() == 11,
{
    reveal_strlit("kv.filesystem");
    reveal_strlit("kv.azblob");
    reveal_strlit("kv.awsdynamodb");
    reveal_strlit("kv.redis");
    reveal_strlit("keyvalue.filesystem");
    reveal_strlit("keyvalue.azblob");
    reveal_strlit("keyvalue.awsdynamodb");
    reveal_strlit("keyvalue.redis");
    reveal_strlit("lockd.etcd");
    reveal_strlit("distributed_locking.etcd");
    reveal_strlit("pubsub.confluent_apache_kafka");
    reveal_strlit("pubsub.mosquitto");
    reveal_strlit("messaging.confluent_apache_kafka");
    reveal_strlit("messaging.mosquitto");
    reveal_strlit("mq.azsbus");
    reveal_strlit("mq.filesystem");
    reveal_strlit("messaging.azsbus");
    reveal_strlit("messaging.filesystem");
    reveal_strlit("configs.usersecrets");
    reveal_strlit("configs.envvars");
    reveal_strlit("configs.azapp");
    reveal_strlit("sql.postgres");
    reveal_strlit("http");
    reveal_strlit("http-client");
}

/// The family tables are pairwise disjoint: no identifier is listed by two
/// different families.
pub proof fn lemma_family_tables_disjoint(f1: CapabilityFamily, f2: CapabilityFamily, s: Seq<char>)
    requires
        in_family_table(f1, s),
        in_family_table(f2, s),
    ensures
        f1 == f2,
{
    registry_literal_facts();
}

/// Round trip: every identifier listed in a family's table resolves to that
/// family, and an identifier resolves to a family exactly when that family's
/// table lists it.
pub proof fn lemma_registry_round_trip(f: CapabilityFamily, s: Seq<char>)
    ensures
        in_family_table(f, s) <==> spec_resolve(s) == Some(f),
{
    registry_literal_facts();
}

} // verus!
