//! The linking engine: turns a manifest into a guest build handle.
//!
//! Declarations are processed in manifest order. For each one the engine
//! reads its resource identifier per the spec-version rule, registers a
//! state entry under the declaration's name (except for the inbound-HTTP
//! family, which owns no external configuration), resolves the identifier
//! to a family through the registry, links the family's host functions at
//! most once per build, and attaches a fresh backend instance carrying a
//! snapshot of the state store. Any failure aborts the whole build: a
//! half-linked guest is never run.

use vstd::prelude::*;

use crate::error::BuildError;
use crate::family::{resolve, spec_resolve, spec_scheme_of, CapabilityFamily};
use crate::http::HttpState;
use crate::manifest::{
    parse_spec_version, resource_id, spec_parse_version, spec_resource_id, CapabilityDeclaration,
    DeclModel, Manifest, ManifestModel, SpecVersion,
};
use crate::store::{
    spec_contains_name, store_wf, CapabilityStateEntry, CapabilityStore, EntryModel,
};
use crate::text::str_eq;

verus! {

/// A backend instance attached to the guest build: one variant per
/// capability family, each carrying what that family's host functions need
/// at guest-call time.
pub enum BackendInstance {
    KeyValue { resource_identifier: String, snapshot: CapabilityStore },
    DistributedLocking { resource_identifier: String, snapshot: CapabilityStore },
    Messaging { name: String, snapshot: CapabilityStore },
    RuntimeConfigs { resource_identifier: String, snapshot: CapabilityStore },
    Sql { resource_identifier: String, snapshot: CapabilityStore },
    HttpServer { state: HttpState },
    HttpClient,
}

/// The mathematical value of a backend instance.
#[verifier::ext_equal]
pub ghost enum BackendModel {
    KeyValue { resource_identifier: Seq<char>, snapshot: Seq<EntryModel> },
    DistributedLocking { resource_identifier: Seq<char>, snapshot: Seq<EntryModel> },
    Messaging { name: Seq<char>, snapshot: Seq<EntryModel> },
    RuntimeConfigs { resource_identifier: Seq<char>, snapshot: Seq<EntryModel> },
    Sql { resource_identifier: Seq<char>, snapshot: Seq<EntryModel> },
    HttpServer { state: HttpState },
    HttpClient,
}

impl View for BackendInstance {
    type V = BackendModel;

    open spec fn view(&self) -> BackendModel {
        match self {
            BackendInstance::KeyValue { resource_identifier, snapshot } => BackendModel::KeyValue {
                resource_identifier: resource_identifier@,
                snapshot: snapshot@,
            },
            BackendInstance::DistributedLocking { resource_identifier, snapshot } => {
                BackendModel::DistributedLocking {
                    resource_identifier: resource_identifier@,
                    snapshot: snapshot@,
                }
            },
            BackendInstance::Messaging { name, snapshot } => BackendModel::Messaging {
                name: name@,
                snapshot: snapshot@,
            },
            BackendInstance::RuntimeConfigs { resource_identifier, snapshot } => {
                BackendModel::RuntimeConfigs {
                    resource_identifier: resource_identifier@,
                    snapshot: snapshot@,
                }
            },
            BackendInstance::Sql { resource_identifier, snapshot } => BackendModel::Sql {
                resource_identifier: resource_identifier@,
                snapshot: snapshot@,
            },
            BackendInstance::HttpServer { state } => BackendModel::HttpServer { state: *state },
            BackendInstance::HttpClient => BackendModel::HttpClient,
        }
    }
}

/// The family a backend instance belongs to.
pub open spec fn spec_family_of_backend(b: BackendModel) -> CapabilityFamily {
    match b {
        BackendModel::KeyValue { .. } => CapabilityFamily::KeyValue,
        BackendModel::DistributedLocking { .. } => CapabilityFamily::DistributedLocking,
        BackendModel::Messaging { .. } => CapabilityFamily::Messaging,
        BackendModel::RuntimeConfigs { .. } => CapabilityFamily::RuntimeConfigs,
        BackendModel::Sql { .. } => CapabilityFamily::Sql,
        BackendModel::HttpServer { .. } => CapabilityFamily::HttpServer,
        BackendModel::HttpClient => CapabilityFamily::HttpClient,
    }
}

/// The family a backend instance belongs to.
pub fn family_of_backend(b: &BackendInstance) -> (r: CapabilityFamily)
    ensures
        r == spec_family_of_backend(b@),
{
    match b {
        BackendInstance::KeyValue { .. } => CapabilityFamily::KeyValue,
        BackendInstance::DistributedLocking { .. } => CapabilityFamily::DistributedLocking,
        BackendInstance::Messaging { .. } => CapabilityFamily::Messaging,
        BackendInstance::RuntimeConfigs { .. } => CapabilityFamily::RuntimeConfigs,
        BackendInstance::Sql { .. } => CapabilityFamily::Sql,
        BackendInstance::HttpServer { .. } => CapabilityFamily::HttpServer,
        BackendInstance::HttpClient => CapabilityFamily::HttpClient,
    }
}

/// The conventional name a backend instance is attached under: its
/// family's scheme.
pub open spec fn spec_scheme_of_backend(b: BackendModel) -> Seq<char> {
    spec_scheme_of(spec_family_of_backend(b))
}

/// The guest build handle: the state store populated so far, the families
/// whose host functions have been linked (in link order), and the backend
/// instances attached (in manifest order).
pub struct GuestBuildHandle {
    pub store: CapabilityStore,
    pub linked: Vec<CapabilityFamily>,
    pub attachments: Vec<BackendInstance>,
}

/// The mathematical value of a guest build handle.
#[verifier::ext_equal]
pub ghost struct HandleModel {
    pub store: Seq<EntryModel>,
    pub linked: Seq<CapabilityFamily>,
    pub attachments: Seq<BackendModel>,
}

impl View for GuestBuildHandle {
    type V = HandleModel;

    open spec fn view(&self) -> HandleModel {
        HandleModel {
            store: self.store@,
            linked: self.linked@,
            attachments: self.attachments@.map_values(|b: BackendInstance| b@),
        }
    }
}

/// A handle is well-formed when its store is a mapping and no family was
/// linked twice.
pub open spec fn handle_wf(h: HandleModel) -> bool {
    store_wf(h.store) && h.linked.no_duplicates()
}

/// The empty handle a build starts from.
pub open spec fn spec_init_handle() -> HandleModel {
    HandleModel { store: Seq::empty(), linked: Seq::empty(), attachments: Seq::empty() }
}

/// The state entry registered for a declaration: under `0.1` the
/// manifest's secret store is kept and the name doubles as the identifier;
/// under `0.2` no secret-store hint is recorded.
pub open spec fn spec_entry_model(
    v: SpecVersion,
    secret_store: Option<Seq<char>>,
    path: Seq<char>,
    d: DeclModel,
    rid: Seq<char>,
) -> EntryModel {
    EntryModel {
        secret_store: match v {
            SpecVersion::V0_1 => secret_store,
            SpecVersion::V0_2 => None,
        },
        resource_identifier: rid,
        name: d.name,
        configs: d.configs,
        manifest_path: path,
    }
}

/// The backend instance constructed for one declaration of a family,
/// given the state-store snapshot taken right after the declaration's own
/// registration.
pub open spec fn spec_backend_for(
    f: CapabilityFamily,
    rid: Seq<char>,
    name: Seq<char>,
    snapshot: Seq<EntryModel>,
) -> BackendModel {
    match f {
        CapabilityFamily::KeyValue => BackendModel::KeyValue {
            resource_identifier: rid,
            snapshot,
        },
        CapabilityFamily::DistributedLocking => BackendModel::DistributedLocking {
            resource_identifier: rid,
            snapshot,
        },
        CapabilityFamily::Messaging => BackendModel::Messaging { name, snapshot },
        CapabilityFamily::RuntimeConfigs => BackendModel::RuntimeConfigs {
            resource_identifier: rid,
            snapshot,
        },
        CapabilityFamily::Sql => BackendModel::Sql { resource_identifier: rid, snapshot },
        CapabilityFamily::HttpServer => BackendModel::HttpServer { state: HttpState::Linked },
        CapabilityFamily::HttpClient => BackendModel::HttpClient,
    }
}

/// Processing one declaration: read the identifier, register the state
/// entry (unless inbound HTTP), resolve the family, link it at most once
/// (the HTTP families may not be linked twice), attach the backend.
pub open spec fn spec_step(
    v: SpecVersion,
    secret_store: Option<Seq<char>>,
    path: Seq<char>,
    d: DeclModel,
    h: HandleModel,
) -> Result<HandleModel, BuildError> {
    match spec_resource_id(v, d) {
        None => Err(BuildError::MissingResourceField),
        Some(rid) => {
            if rid != "http"@ && spec_contains_name(h.store, d.name) {
                Err(BuildError::DuplicateCapabilityName)
            } else {
                let store1 = if rid != "http"@ {
                    h.store.push(spec_entry_model(v, secret_store, path, d, rid))
                } else {
                    h.store
                };
                match spec_resolve(rid) {
                    None => Err(BuildError::UnknownCapabilityIdentifier),
                    Some(f) => {
                        if (f == CapabilityFamily::HttpServer || f == CapabilityFamily::HttpClient)
                            && h.linked.contains(f) {
                            Err(BuildError::CapabilityAlreadyLinked)
                        } else {
                            let linked1 = if h.linked.contains(f) {
                                h.linked
                            } else {
                                h.linked.push(f)
                            };
                            Ok(
                                HandleModel {
                                    store: store1,
                                    linked: linked1,
                                    attachments: h.attachments.push(
                                        spec_backend_for(f, rid, d.name, store1),
                                    ),
                                },
                            )
                        }
                    },
                }
            }
        },
    }
}

/// Folding `spec_step` over the declarations in manifest order, aborting
/// on the first failure.
pub open spec fn spec_build_from(
    v: SpecVersion,
    secret_store: Option<Seq<char>>,
    path: Seq<char>,
    decls: Seq<DeclModel>,
    h: HandleModel,
) -> Result<HandleModel, BuildError>
    decreases decls.len(),
{
    if decls.len() == 0 {
        Ok(h)
    } else {
        match spec_step(v, secret_store, path, decls[0], h) {
            Err(e) => Err(e),
            Ok(h1) => spec_build_from(v, secret_store, path, decls.drop_first(), h1),
        }
    }
}

/// What building a manifest yields: the handle, or the first error in
/// manifest order. An unsupported spec version fails the build whatever
/// the declarations hold.
pub open spec fn spec_build(m: ManifestModel, path: Seq<char>) -> Result<
    HandleModel,
    BuildError,
> {
    match spec_parse_version(m.spec_version) {
        None => Err(BuildError::UnsupportedSpecVersion),
        Some(v) => spec_build_from(v, m.secret_store, path, m.capabilities, spec_init_handle()),
    }
}

/// Whether a family's host functions have been linked.
pub fn linked_contains(linked: &Vec<CapabilityFamily>, f: CapabilityFamily) -> (r: bool)
    ensures
        r == linked@.contains(f),
{
    let n = linked.len();
    for i in 0..n
        invariant
            n == linked@.len(),
            forall|k: int| 0 <= k < i ==> linked@[k] != f,
    {
        if linked[i] == f {
            return true;
        }
    }
    false
}

/// Builds the backend instance for one declaration.
fn make_backend(
    f: CapabilityFamily,
    rid: &String,
    name: &String,
    snapshot: CapabilityStore,
) -> (r: BackendInstance)
    ensures
        r@ == spec_backend_for(f, rid@, name@, snapshot@),
{
    match f {
        CapabilityFamily::KeyValue => BackendInstance::KeyValue {
            resource_identifier: rid.clone(),
            snapshot,
        },
        CapabilityFamily::DistributedLocking => BackendInstance::DistributedLocking {
            resource_identifier: rid.clone(),
            snapshot,
        },
        CapabilityFamily::Messaging => BackendInstance::Messaging { name: name.clone(), snapshot },
        CapabilityFamily::RuntimeConfigs => BackendInstance::RuntimeConfigs {
            resource_identifier: rid.clone(),
            snapshot,
        },
        CapabilityFamily::Sql => BackendInstance::Sql {
            resource_identifier: rid.clone(),
            snapshot,
        },
        CapabilityFamily::HttpServer => BackendInstance::HttpServer { state: HttpState::Linked },
        CapabilityFamily::HttpClient => BackendInstance::HttpClient,
    }
}

/// Builds the guest handle for a manifest: resolves, registers, links and
/// attaches every declaration in manifest order, or fails with the first
/// error. The result is exactly what `spec_build` prescribes.
pub fn build_store_instance(manifest: &Manifest, manifest_path: &str) -> (r: Result<
    GuestBuildHandle,
    BuildError,
>)
    ensures
        match r {
            Ok(h) => spec_build(manifest@, manifest_path@) == Ok::<HandleModel, BuildError>(h@),
            Err(e) => spec_build(manifest@, manifest_path@) == Err::<HandleModel, BuildError>(e),
        },
{
    let v = match parse_spec_version(manifest.spec_version.as_str()) {
        Ok(v) => v,
        Err(e) => {
            return Err(e);
        },
    };
    let ghost secret = manifest@.secret_store;
    let ghost path = manifest_path@;
    let ghost decls = manifest@.capabilities;

    let mut handle = GuestBuildHandle {
        store: CapabilityStore::new(),
        linked: Vec::new(),
        attachments: Vec::new(),
    };
    assert(handle@ =~= spec_init_handle());
    assert(decls.skip(0) =~= decls);

    let n = manifest.capabilities.len();
    for i in 0..n
        invariant
            n == decls.len(),
            decls == manifest@.capabilities,
            path == manifest_path@,
            secret == manifest@.secret_store,
            spec_parse_version(manifest@.spec_version) == Some(v),
            handle.store.wf(),
            spec_build_from(v, secret, path, decls.skip(i as int), handle@) == spec_build_from(
                v,
                secret,
                path,
                decls,
                spec_init_handle(),
            ),
    {
        let ghost h0 = handle@;
        let d = &manifest.capabilities[i];
        assert(decls.skip(i as int)[0] == decls[i as int]);
        assert(d@ == decls[i as int]);

        let rid: &String = match resource_id(v, d) {
            Ok(rid) => rid,
            Err(e) => {
                return Err(e);
            },
        };
        let is_http = str_eq(rid.as_str(), "http");

        if !is_http {
            let entry = CapabilityStateEntry {
                secret_store: match v {
                    SpecVersion::V0_1 => match &manifest.secret_store {
                        Some(s) => Some(s.clone()),
                        None => None,
                    },
                    SpecVersion::V0_2 => None,
                },
                resource_identifier: rid.clone(),
                name: d.name.clone(),
                configs: crate::store::clone_configs(&d.configs),
                manifest_path: manifest_path.to_owned(),
            };
            assert(entry@ =~= spec_entry_model(v, secret, path, d@, rid@));
            match handle.store.insert(entry) {
                Ok(()) => {},
                Err(e) => {
                    return Err(e);
                },
            }
        }
        let ghost store1 = handle.store@;

        let family = match resolve(rid.as_str()) {
            Ok(f) => f,
            Err(e) => {
                return Err(e);
            },
        };

        let already = linked_contains(&handle.linked, family);
        if (family == CapabilityFamily::HttpServer || family == CapabilityFamily::HttpClient)
            && already {
            return Err(BuildError::CapabilityAlreadyLinked);
        }
        if !already {
            handle.linked.push(family);
        }

        let snapshot = handle.store.clone();
        let backend = make_backend(family, rid, &d.name, snapshot);
        handle.attachments.push(backend);

        proof {
            let stepped = spec_step(v, secret, path, d@, h0);
            assert(handle@.store =~= store1);
            assert(stepped == Ok::<HandleModel, BuildError>(handle@)) by {
                assert(handle@ =~= stepped.unwrap());
            }
            assert(decls.skip(i as int).drop_first() =~= decls.skip(i + 1));
        }
    }
    assert(decls.skip(n as int) =~= Seq::<DeclModel>::empty());
    Ok(handle)
}

/// The index of the last attachment under a scheme name, or `-1` when the
/// scheme is absent. Attachments under one scheme shadow earlier ones, as
/// entries of a map keyed by scheme would.
pub open spec fn spec_find_last_scheme(atts: Seq<BackendModel>, scheme: Seq<char>) -> int
    decreases atts.len(),
{
    if atts.len() == 0 {
        -1
    } else if spec_scheme_of_backend(atts.last()) == scheme {
        atts.len() - 1
    } else {
        spec_find_last_scheme(atts.drop_last(), scheme)
    }
}

/// When some attachment carries the scheme, `spec_find_last_scheme` names
/// a position in bounds that carries it.
pub proof fn lemma_find_last_props(atts: Seq<BackendModel>, scheme: Seq<char>)
    requires
        exists|i: int|
            0 <= i < atts.len() && spec_scheme_of_backend(#[trigger] atts[i]) == scheme,
    ensures
        ({
            let j = spec_find_last_scheme(atts, scheme);
            0 <= j < atts.len() && spec_scheme_of_backend(atts[j]) == scheme
        }),
    decreases atts.len(),
{
    if spec_scheme_of_backend(atts.last()) == scheme {
    } else {
        let i = choose|i: int|
            0 <= i < atts.len() && spec_scheme_of_backend(#[trigger] atts[i]) == scheme;
        assert(i != atts.len() - 1);
        assert(atts.drop_last()[i] == atts[i]);
        lemma_find_last_props(atts.drop_last(), scheme);
        let j = spec_find_last_scheme(atts, scheme);
        assert(atts.drop_last()[j] == atts[j]);
    }
}

/// `spec_find_last_scheme` stays within bounds, `-1` standing for absence.
pub proof fn lemma_find_last_bounds(atts: Seq<BackendModel>, scheme: Seq<char>)
    ensures
        -1 <= spec_find_last_scheme(atts, scheme) < atts.len(),
    decreases atts.len(),
{
    if atts.len() == 0 {
    } else if spec_scheme_of_backend(atts.last()) == scheme {
    } else {
        lemma_find_last_bounds(atts.drop_last(), scheme);
    }
}

/// No attachment after the one `spec_find_last_scheme` names carries the
/// same scheme.
pub proof fn lemma_find_last_no_match_after(atts: Seq<BackendModel>, scheme: Seq<char>)
    ensures
        forall|k: int|
            spec_find_last_scheme(atts, scheme) < k < atts.len() ==> spec_scheme_of_backend(
                #[trigger] atts[k],
            ) != scheme,
    decreases atts.len(),
{
    if atts.len() == 0 {
    } else if spec_scheme_of_backend(atts.last()) == scheme {
    } else {
        lemma_find_last_no_match_after(atts.drop_last(), scheme);
        lemma_find_last_bounds(atts.drop_last(), scheme);
        assert forall|k: int|
            spec_find_last_scheme(atts, scheme) < k < atts.len() implies spec_scheme_of_backend(
            #[trigger] atts[k],
        ) != scheme by {
            if k < atts.len() - 1 {
                assert(atts.drop_last()[k] == atts[k]);
            } else {
                assert(atts[k] == atts.last());
            }
        }
    }
}

/// A position whose scheme matches, with no match after it, is what
/// `spec_find_last_scheme` names.
pub proof fn lemma_find_last_at(atts: Seq<BackendModel>, scheme: Seq<char>, i: int)
    requires
        0 <= i < atts.len(),
        spec_scheme_of_backend(atts[i]) == scheme,
        forall|k: int| i < k < atts.len() ==> spec_scheme_of_backend(#[trigger] atts[k]) != scheme,
    ensures
        spec_find_last_scheme(atts, scheme) == i,
    decreases atts.len(),
{
    if i == atts.len() - 1 {
    } else {
        assert(atts.drop_last()[i] == atts[i]);
        lemma_find_last_at(atts.drop_last(), scheme, i);
    }
}

/// Retrieves the backend attached under a scheme name, by index, checking
/// it against the family the caller expects. A stored instance of another
/// family is a `WrongCapabilityType` error: an internal inconsistency, not
/// a manifest authoring error.
pub fn get_resource(handle: &GuestBuildHandle, scheme: &str, expected: CapabilityFamily) -> (r:
    Result<usize, BuildError>)
    requires
        exists|i: int|
            0 <= i < handle@.attachments.len() && spec_scheme_of_backend(
                #[trigger] handle@.attachments[i],
            ) == scheme@,
    ensures
        ({
            let j = spec_find_last_scheme(handle@.attachments, scheme@);
            &&& 0 <= j < handle@.attachments.len()
            &&& spec_scheme_of_backend(handle@.attachments[j]) == scheme@
            &&& match r {
                Ok(i) => i == j && spec_family_of_backend(handle@.attachments[j]) == expected,
                Err(e) => e == BuildError::WrongCapabilityType && spec_family_of_backend(
                    handle@.attachments[j],
                ) != expected,
            }
        }),
{
    let ghost atts = handle@.attachments;
    let n = handle.attachments.len();
    let mut i = n;
    while i > 0
        invariant
            i <= n,
            n == atts.len(),
            atts == handle@.attachments,
            exists|k: int|
                0 <= k < atts.len() && spec_scheme_of_backend(#[trigger] atts[k]) == scheme@,
            forall|k: int| i <= k < n ==> spec_scheme_of_backend(#[trigger] atts[k]) != scheme@,
        decreases i,
    {
        i = i - 1;
        let b = &handle.attachments[i];
        let family = family_of_backend(b);
        let key = crate::family::scheme_name(family);
        if str_eq(key.as_str(), scheme) {
            proof {
                lemma_find_last_at(atts, scheme@, i as int);
            }
            if family == expected {
                return Ok(i);
            } else {
                return Err(BuildError::WrongCapabilityType);
            }
        }
    }
    Err(BuildError::WrongCapabilityType)
}

} // verus!
