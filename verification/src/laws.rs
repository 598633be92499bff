//! Laws of the linking engine, stated over the build model and proved for
//! every manifest.

use vstd::prelude::*;

use crate::engine::{
    handle_wf, spec_backend_for, spec_build, spec_build_from, spec_entry_model,
    spec_family_of_backend, spec_init_handle, spec_step, BackendModel, HandleModel,
};
use crate::http::HttpState;
use crate::error::BuildError;
use crate::family::{spec_resolve, CapabilityFamily};
use crate::manifest::{
    spec_manifest_requests_http, spec_parse_version, spec_requests_http, spec_resource_id,
    DeclModel, ManifestModel, SpecVersion,
};
use crate::store::{spec_contains_entry, spec_contains_name, EntryModel};

verus! {

/// The family a declaration resolves to under a spec version, if its
/// resource identifier can be read and the registry knows it.
pub open spec fn spec_family_opt(v: SpecVersion, d: DeclModel) -> Option<CapabilityFamily> {
    match spec_resource_id(v, d) {
        None => None,
        Some(rid) => spec_resolve(rid),
    }
}

/// A declaration's resource identifier, where it has one.
pub open spec fn spec_rid(v: SpecVersion, d: DeclModel) -> Seq<char> {
    match spec_resource_id(v, d) {
        Some(r) => r,
        None => Seq::empty(),
    }
}

/// A declaration that carries a resource identifier other than the
/// inbound-HTTP one: exactly those the state store registers.
pub open spec fn is_stored_decl(v: SpecVersion, d: DeclModel) -> bool {
    spec_resource_id(v, d) matches Some(rid) && rid != "http"@
}

/// Every declaration resolves to some family.
pub open spec fn all_resolve(v: SpecVersion, decls: Seq<DeclModel>) -> bool {
    forall|k: int| 0 <= k < decls.len() ==> (#[trigger] spec_family_opt(v, decls[k])) is Some
}

/// No two declarations resolve to the given at-most-once family.
pub open spec fn family_at_most_once(
    v: SpecVersion,
    decls: Seq<DeclModel>,
    f: CapabilityFamily,
) -> bool {
    forall|k: int, l: int|
        0 <= k < l < decls.len() ==> !((#[trigger] spec_family_opt(v, decls[k])) == Some(f) && (
        #[trigger] spec_family_opt(v, decls[l])) == Some(f))
}

/// No declaration resolves to an HTTP family that the handle has already
/// linked.
pub open spec fn http_not_linked(
    v: SpecVersion,
    decls: Seq<DeclModel>,
    linked: Seq<CapabilityFamily>,
) -> bool {
    forall|k: int|
        0 <= k < decls.len() ==> ((#[trigger] spec_family_opt(v, decls[k])) == Some(
            CapabilityFamily::HttpServer,
        ) ==> !linked.contains(CapabilityFamily::HttpServer)) && (spec_family_opt(v, decls[k])
            == Some(CapabilityFamily::HttpClient) ==> !linked.contains(
            CapabilityFamily::HttpClient,
        ))
}

/// Stored declarations carry pairwise distinct names, all of them fresh
/// against the store.
pub open spec fn names_fresh(v: SpecVersion, decls: Seq<DeclModel>, store: Seq<EntryModel>) -> bool {
    (forall|k: int, l: int|
        0 <= k < l < decls.len() ==> !((#[trigger] is_stored_decl(v, decls[k])) && (
        #[trigger] is_stored_decl(v, decls[l])) && decls[k].name == decls[l].name)) && (forall|
        k: int,
    |
        0 <= k < decls.len() && (#[trigger] is_stored_decl(v, decls[k]))
            ==> !spec_contains_name(store, decls[k].name))
}

/// Everything a successful build requires of the declarations, relative to
/// the handle it starts from.
pub open spec fn build_preconditions(
    v: SpecVersion,
    decls: Seq<DeclModel>,
    h: HandleModel,
) -> bool {
    &&& all_resolve(v, decls)
    &&& family_at_most_once(v, decls, CapabilityFamily::HttpServer)
    &&& family_at_most_once(v, decls, CapabilityFamily::HttpClient)
    &&& http_not_linked(v, decls, h.linked)
    &&& names_fresh(v, decls, h.store)
}

/// One sequence is an initial segment of another.
pub open spec fn seq_prefix_of<A>(a: Seq<A>, b: Seq<A>) -> bool {
    a.len() <= b.len() && forall|i: int| 0 <= i < a.len() ==> a[i] == b[i]
}

/// Every inbound-HTTP backend among the attachments is still in its
/// freshly linked state: the build phase attaches it and never serves.
pub open spec fn http_attachments_linked(atts: Seq<BackendModel>) -> bool {
    forall|k: int|
        0 <= k < atts.len() ==> ((#[trigger] atts[k]) matches BackendModel::HttpServer { .. }
            ==> atts[k] == (BackendModel::HttpServer { state: HttpState::Linked }))
}

/// Pushing an entry adds exactly its name to the names present.
proof fn lemma_contains_name_push(s: Seq<EntryModel>, e: EntryModel, n: Seq<char>)
    ensures
        spec_contains_name(s.push(e), n) <==> (spec_contains_name(s, n) || e.name == n),
{
    if spec_contains_name(s, n) {
        let i = choose|i: int| 0 <= i < s.len() && (#[trigger] s[i]).name == n;
        assert(s.push(e)[i].name == n);
    }
    if e.name == n {
        assert(s.push(e)[s.len() as int].name == n);
    }
    if spec_contains_name(s.push(e), n) {
        let i = choose|i: int| 0 <= i < s.push(e).len() && (#[trigger] s.push(e)[i]).name == n;
        if i < s.len() {
            assert(s[i].name == n);
        }
    }
}

/// Pushing a family adds exactly it to the families linked.
proof fn lemma_linked_push(s: Seq<CapabilityFamily>, f: CapabilityFamily, g: CapabilityFamily)
    ensures
        s.push(f).contains(g) <==> (s.contains(g) || f == g),
{
    if s.contains(g) {
        let i = choose|i: int| 0 <= i < s.len() && s[i] == g;
        assert(s.push(f)[i] == g);
    }
    if f == g {
        assert(s.push(f)[s.len() as int] == g);
    }
    if s.push(f).contains(g) {
        let i = choose|i: int| 0 <= i < s.push(f).len() && s.push(f)[i] == g;
        if i < s.len() {
            assert(s[i] == g);
        }
    }
}

/// A successful build starting from a well-formed handle requires the
/// build preconditions: every identifier readable and known, neither HTTP
/// family declared twice or re-linked, stored names distinct and fresh.
pub proof fn lemma_build_ok_conditions(
    v: SpecVersion,
    sec: Option<Seq<char>>,
    path: Seq<char>,
    decls: Seq<DeclModel>,
    h: HandleModel,
)
    requires
        spec_build_from(v, sec, path, decls, h) is Ok,
    ensures
        build_preconditions(v, decls, h),
    decreases decls.len(),
{
    if decls.len() == 0 {
    } else {
        let d0 = decls[0];
        let step0 = spec_step(v, sec, path, d0, h);
        assert(step0 is Ok);
        let h1 = step0->Ok_0;
        let rest = decls.drop_first();
        lemma_build_ok_conditions(v, sec, path, rest, h1);
        assert(forall|k: int| 0 <= k < rest.len() ==> rest[k] == decls[k + 1]);

        let rid0 = spec_rid(v, d0);
        let f0 = spec_family_opt(v, d0)->Some_0;
        assert(spec_family_opt(v, d0) is Some);
        let stored0 = is_stored_decl(v, d0);
        assert(h1.store == if stored0 {
            h.store.push(spec_entry_model(v, sec, path, d0, rid0))
        } else {
            h.store
        });
        assert(h1.linked == if h.linked.contains(f0) {
            h.linked
        } else {
            h.linked.push(f0)
        });

        assert forall|k: int| 0 <= k < decls.len() implies (#[trigger] spec_family_opt(
            v,
            decls[k],
        )) is Some by {
            if k > 0 {
                assert(spec_family_opt(v, rest[k - 1]) is Some);
            }
        }

        // neither HTTP family twice
        assert forall|k: int, l: int| 0 <= k < l < decls.len() implies !((
        #[trigger] spec_family_opt(v, decls[k])) == Some(CapabilityFamily::HttpServer) && (
        #[trigger] spec_family_opt(v, decls[l])) == Some(CapabilityFamily::HttpServer)) by {
            if k == 0 {
                if spec_family_opt(v, d0) == Some(CapabilityFamily::HttpServer) {
                    lemma_linked_push(h.linked, f0, CapabilityFamily::HttpServer);
                    assert(h1.linked.contains(CapabilityFamily::HttpServer));
                    assert(spec_family_opt(v, rest[l - 1]) == spec_family_opt(v, decls[l]));
                }
            } else {
                assert(!(spec_family_opt(v, rest[k - 1]) == Some(CapabilityFamily::HttpServer)
                    && spec_family_opt(v, rest[l - 1]) == Some(CapabilityFamily::HttpServer)));
            }
        }
        assert forall|k: int, l: int| 0 <= k < l < decls.len() implies !((
        #[trigger] spec_family_opt(v, decls[k])) == Some(CapabilityFamily::HttpClient) && (
        #[trigger] spec_family_opt(v, decls[l])) == Some(CapabilityFamily::HttpClient)) by {
            if k == 0 {
                if spec_family_opt(v, d0) == Some(CapabilityFamily::HttpClient) {
                    lemma_linked_push(h.linked, f0, CapabilityFamily::HttpClient);
                    assert(h1.linked.contains(CapabilityFamily::HttpClient));
                    assert(spec_family_opt(v, rest[l - 1]) == spec_family_opt(v, decls[l]));
                }
            } else {
                assert(!(spec_family_opt(v, rest[k - 1]) == Some(CapabilityFamily::HttpClient)
                    && spec_family_opt(v, rest[l - 1]) == Some(CapabilityFamily::HttpClient)));
            }
        }

        // no HTTP family re-linked
        assert forall|k: int| 0 <= k < decls.len() implies ((#[trigger] spec_family_opt(
            v,
            decls[k],
        )) == Some(CapabilityFamily::HttpServer) ==> !h.linked.contains(
            CapabilityFamily::HttpServer,
        )) && (spec_family_opt(v, decls[k]) == Some(CapabilityFamily::HttpClient)
            ==> !h.linked.contains(CapabilityFamily::HttpClient)) by {
            if k > 0 {
                assert(spec_family_opt(v, rest[k - 1]) == spec_family_opt(v, decls[k]));
                lemma_linked_push(h.linked, f0, CapabilityFamily::HttpServer);
                lemma_linked_push(h.linked, f0, CapabilityFamily::HttpClient);
            }
        }

        // stored names distinct and fresh
        assert forall|k: int, l: int| 0 <= k < l < decls.len() implies !((
        #[trigger] is_stored_decl(v, decls[k])) && (#[trigger] is_stored_decl(v, decls[l]))
            && decls[k].name == decls[l].name) by {
            if k == 0 {
                if stored0 && is_stored_decl(v, decls[l]) {
                    assert(is_stored_decl(v, rest[l - 1]));
                    assert(!spec_contains_name(h1.store, rest[l - 1].name));
                    lemma_contains_name_push(
                        h.store,
                        spec_entry_model(v, sec, path, d0, rid0),
                        decls[l].name,
                    );
                }
            } else {
                assert(!(is_stored_decl(v, rest[k - 1]) && is_stored_decl(v, rest[l - 1])
                    && rest[k - 1].name == rest[l - 1].name));
            }
        }
        assert forall|k: int| 0 <= k < decls.len() && (#[trigger] is_stored_decl(
            v,
            decls[k],
        )) implies !spec_contains_name(h.store, decls[k].name) by {
            if k > 0 {
                assert(is_stored_decl(v, rest[k - 1]));
                assert(!spec_contains_name(h1.store, rest[k - 1].name));
                if stored0 {
                    lemma_contains_name_push(
                        h.store,
                        spec_entry_model(v, sec, path, d0, rid0),
                        decls[k].name,
                    );
                }
            }
        }
    }
}

/// An entry present in a sequence is present in every extension of it.
proof fn lemma_contains_entry_prefix(a: Seq<EntryModel>, b: Seq<EntryModel>, e: EntryModel)
    requires
        seq_prefix_of(a, b),
        spec_contains_entry(a, e),
    ensures
        spec_contains_entry(b, e),
{
    let i = choose|i: int| 0 <= i < a.len() && a[i] == e;
    assert(b[i] == e);
}

/// What a successful build yields, for every sequence of declarations that
/// meets the preconditions: the build succeeds, the handle stays
/// well-formed, the store keeps everything it had and gains each stored
/// declaration's entry under its own name with its own configuration, and
/// a family is linked (exactly once) precisely when some declaration
/// resolves to it.
pub proof fn lemma_build_from_success(
    v: SpecVersion,
    sec: Option<Seq<char>>,
    path: Seq<char>,
    decls: Seq<DeclModel>,
    h: HandleModel,
)
    requires
        handle_wf(h),
        build_preconditions(v, decls, h),
        http_attachments_linked(h.attachments),
    ensures
        ({
            let r = spec_build_from(v, sec, path, decls, h);
            &&& r is Ok
            &&& handle_wf(r->Ok_0)
            &&& seq_prefix_of(h.store, r->Ok_0.store)
            &&& forall|k: int|
                0 <= k < decls.len() && (#[trigger] is_stored_decl(v, decls[k]))
                    ==> spec_contains_entry(
                    r->Ok_0.store,
                    spec_entry_model(v, sec, path, decls[k], spec_rid(v, decls[k])),
                )
            &&& forall|f: CapabilityFamily|
                #![auto]
                r->Ok_0.linked.contains(f) <==> (h.linked.contains(f) || exists|k: int|
                    0 <= k < decls.len() && spec_family_opt(v, decls[k]) == Some(f))
            &&& r->Ok_0.attachments.len() == h.attachments.len() + decls.len()
            &&& seq_prefix_of(h.attachments, r->Ok_0.attachments)
            &&& forall|k: int|
                0 <= k < decls.len() ==> spec_family_of_backend(
                    r->Ok_0.attachments[h.attachments.len() + k],
                ) == (#[trigger] spec_family_opt(v, decls[k]))->Some_0
            &&& http_attachments_linked(r->Ok_0.attachments)
        }),
    decreases decls.len(),
{
    let r = spec_build_from(v, sec, path, decls, h);
    if decls.len() == 0 {
        assert(r == Ok::<HandleModel, BuildError>(h));
    } else {
        let d0 = decls[0];
        let rest = decls.drop_first();
        assert(forall|k: int| 0 <= k < rest.len() ==> rest[k] == decls[k + 1]);
        assert(spec_family_opt(v, decls[0]) is Some);
        let rid0 = spec_rid(v, d0);
        let f0 = spec_family_opt(v, d0)->Some_0;
        let stored0 = is_stored_decl(v, d0);
        let e0 = spec_entry_model(v, sec, path, d0, rid0);
        if stored0 {
            assert(is_stored_decl(v, decls[0]));
            assert(!spec_contains_name(h.store, d0.name));
        }
        let step0 = spec_step(v, sec, path, d0, h);
        assert(step0 is Ok);
        let h1 = step0->Ok_0;
        assert(h1.store == if stored0 {
            h.store.push(e0)
        } else {
            h.store
        });
        assert(h1.linked == if h.linked.contains(f0) {
            h.linked
        } else {
            h.linked.push(f0)
        });

        // the stepped handle is still well-formed
        if stored0 {
            assert forall|i: int, j: int| 0 <= i < j < h1.store.len() implies (
            #[trigger] h1.store[i]).name != (#[trigger] h1.store[j]).name by {
                if j == h.store.len() {
                    assert(h1.store[j] == e0);
                    assert(h.store[i].name == h1.store[i].name);
                }
            }
        }
        if !h.linked.contains(f0) {
            assert forall|i: int, j: int|
                0 <= i < h1.linked.len() && 0 <= j < h1.linked.len() && i
                    != j implies h1.linked[i] != h1.linked[j] by {
                if j == h.linked.len() && i < h.linked.len() {
                    assert(h.linked[i] == h1.linked[i]);
                }
                if i == h.linked.len() && j < h.linked.len() {
                    assert(h.linked[j] == h1.linked[j]);
                }
            }
            assert(h1.linked.no_duplicates());
        }
        assert(handle_wf(h1));

        // the stepped handle gains exactly one attachment, of the
        // declaration's family, and its HTTP attachments stay freshly linked
        let b0 = spec_backend_for(f0, rid0, d0.name, h1.store);
        assert(h1.attachments == h.attachments.push(b0));
        assert(spec_family_of_backend(b0) == f0);
        assert forall|k: int| 0 <= k < h1.attachments.len() implies ((
        #[trigger] h1.attachments[k]) matches BackendModel::HttpServer { .. }
            ==> h1.attachments[k] == (BackendModel::HttpServer {
            state: HttpState::Linked,
        })) by {
            if k < h.attachments.len() {
                assert(h1.attachments[k] == h.attachments[k]);
            } else {
                assert(h1.attachments[k] == b0);
            }
        }

        // the remaining declarations meet the preconditions against it
        assert forall|k: int| 0 <= k < rest.len() implies (#[trigger] spec_family_opt(
            v,
            rest[k],
        )) is Some by {
            assert(spec_family_opt(v, decls[k + 1]) is Some);
        }
        assert forall|k: int, l: int| 0 <= k < l < rest.len() implies !((
        #[trigger] spec_family_opt(v, rest[k])) == Some(CapabilityFamily::HttpServer) && (
        #[trigger] spec_family_opt(v, rest[l])) == Some(CapabilityFamily::HttpServer)) by {
            assert(!(spec_family_opt(v, decls[k + 1]) == Some(CapabilityFamily::HttpServer)
                && spec_family_opt(v, decls[l + 1]) == Some(CapabilityFamily::HttpServer)));
        }
        assert forall|k: int, l: int| 0 <= k < l < rest.len() implies !((
        #[trigger] spec_family_opt(v, rest[k])) == Some(CapabilityFamily::HttpClient) && (
        #[trigger] spec_family_opt(v, rest[l])) == Some(CapabilityFamily::HttpClient)) by {
            assert(!(spec_family_opt(v, decls[k + 1]) == Some(CapabilityFamily::HttpClient)
                && spec_family_opt(v, decls[l + 1]) == Some(CapabilityFamily::HttpClient)));
        }
        assert forall|k: int| 0 <= k < rest.len() implies ((#[trigger] spec_family_opt(v, rest[k]))
            == Some(CapabilityFamily::HttpServer) ==> !h1.linked.contains(
            CapabilityFamily::HttpServer,
        )) && (spec_family_opt(v, rest[k]) == Some(CapabilityFamily::HttpClient)
            ==> !h1.linked.contains(CapabilityFamily::HttpClient)) by {
            lemma_linked_push(h.linked, f0, CapabilityFamily::HttpServer);
            lemma_linked_push(h.linked, f0, CapabilityFamily::HttpClient);
            assert(spec_family_opt(v, decls[k + 1]) == spec_family_opt(v, rest[k]));
            if spec_family_opt(v, rest[k]) == Some(CapabilityFamily::HttpServer) {
                assert(!(spec_family_opt(v, decls[0]) == Some(CapabilityFamily::HttpServer)
                    && spec_family_opt(v, decls[k + 1]) == Some(CapabilityFamily::HttpServer)));
            }
            if spec_family_opt(v, rest[k]) == Some(CapabilityFamily::HttpClient) {
                assert(!(spec_family_opt(v, decls[0]) == Some(CapabilityFamily::HttpClient)
                    && spec_family_opt(v, decls[k + 1]) == Some(CapabilityFamily::HttpClient)));
            }
        }
        assert forall|k: int, l: int| 0 <= k < l < rest.len() implies !((#[trigger] is_stored_decl(
            v,
            rest[k],
        )) && (#[trigger] is_stored_decl(v, rest[l])) && rest[k].name == rest[l].name) by {
            assert(!(is_stored_decl(v, decls[k + 1]) && is_stored_decl(v, decls[l + 1])
                && decls[k + 1].name == decls[l + 1].name));
        }
        assert forall|k: int|
            0 <= k < rest.len() && (#[trigger] is_stored_decl(
                v,
                rest[k],
            )) implies !spec_contains_name(h1.store, rest[k].name) by {
            assert(is_stored_decl(v, decls[k + 1]));
            assert(!spec_contains_name(h.store, decls[k + 1].name));
            if stored0 {
                assert(!(is_stored_decl(v, decls[0]) && is_stored_decl(v, decls[k + 1])
                    && decls[0].name == decls[k + 1].name));
                lemma_contains_name_push(h.store, e0, decls[k + 1].name);
            }
        }

        lemma_build_from_success(v, sec, path, rest, h1);
        let r1 = spec_build_from(v, sec, path, rest, h1);
        assert(r == r1);
        let h2 = r1->Ok_0;

        // the old store is an initial segment of the new one
        assert(seq_prefix_of(h.store, h1.store));
        assert(seq_prefix_of(h.store, h2.store));

        // each stored declaration's entry is present
        assert forall|k: int|
            0 <= k < decls.len() && (#[trigger] is_stored_decl(
                v,
                decls[k],
            )) implies spec_contains_entry(
            h2.store,
            spec_entry_model(v, sec, path, decls[k], spec_rid(v, decls[k])),
        ) by {
            if k == 0 {
                assert(h1.store[h.store.len() as int] == e0);
                assert(spec_contains_entry(h1.store, e0));
                lemma_contains_entry_prefix(h1.store, h2.store, e0);
            } else {
                assert(is_stored_decl(v, rest[k - 1]));
                assert(rest[k - 1] == decls[k]);
            }
        }

        // a family is linked exactly when some declaration resolves to it
        assert forall|f: CapabilityFamily| #![auto] h2.linked.contains(f) <==> (h.linked.contains(
            f,
        ) || exists|k: int| 0 <= k < decls.len() && spec_family_opt(v, decls[k]) == Some(f)) by {
            lemma_linked_push(h.linked, f0, f);
            if h2.linked.contains(f) {
                if h1.linked.contains(f) {
                    if !h.linked.contains(f) {
                        assert(f == f0);
                        assert(spec_family_opt(v, decls[0]) == Some(f));
                    }
                } else {
                    let k = choose|k: int|
                        0 <= k < rest.len() && spec_family_opt(v, rest[k]) == Some(f);
                    assert(spec_family_opt(v, decls[k + 1]) == Some(f));
                }
            }
            if h.linked.contains(f) {
                assert(h1.linked.contains(f));
            }
            if exists|k: int| 0 <= k < decls.len() && spec_family_opt(v, decls[k]) == Some(f) {
                let k = choose|k: int|
                    0 <= k < decls.len() && spec_family_opt(v, decls[k]) == Some(f);
                if k == 0 {
                    assert(f == f0);
                    assert(h1.linked.contains(f0));
                } else {
                    assert(spec_family_opt(v, rest[k - 1]) == Some(f));
                }
            }
        }

        // one attachment per declaration, in manifest order
        assert(seq_prefix_of(h.attachments, h1.attachments));
        assert(seq_prefix_of(h.attachments, h2.attachments));
        assert(h2.attachments.len() == h.attachments.len() + decls.len());
        assert forall|k: int| 0 <= k < decls.len() implies spec_family_of_backend(
            h2.attachments[h.attachments.len() + k],
        ) == (#[trigger] spec_family_opt(v, decls[k]))->Some_0 by {
            if k == 0 {
                assert(h2.attachments[h.attachments.len() as int] == h1.attachments[h.attachments.len() as int]);
                assert(h1.attachments[h.attachments.len() as int] == b0);
            } else {
                assert(spec_family_of_backend(h2.attachments[h1.attachments.len() + (k - 1)])
                    == spec_family_opt(v, rest[k - 1])->Some_0);
                assert(spec_family_opt(v, rest[k - 1]) == spec_family_opt(v, decls[k]));
            }
        }
    }
}

/// After one successful step, the remaining declarations still repeat no
/// HTTP family and still re-link none; names present stay present.
proof fn lemma_rest_preconditions(
    v: SpecVersion,
    sec: Option<Seq<char>>,
    path: Seq<char>,
    decls: Seq<DeclModel>,
    h: HandleModel,
)
    requires
        decls.len() > 0,
        http_not_linked(v, decls, h.linked),
        family_at_most_once(v, decls, CapabilityFamily::HttpServer),
        family_at_most_once(v, decls, CapabilityFamily::HttpClient),
        spec_step(v, sec, path, decls[0], h) is Ok,
    ensures
        ({
            let h1 = spec_step(v, sec, path, decls[0], h)->Ok_0;
            let rest = decls.drop_first();
            &&& http_not_linked(v, rest, h1.linked)
            &&& family_at_most_once(v, rest, CapabilityFamily::HttpServer)
            &&& family_at_most_once(v, rest, CapabilityFamily::HttpClient)
            &&& forall|n: Seq<char>|
                #[trigger] spec_contains_name(h.store, n) ==> spec_contains_name(h1.store, n)
        }),
{
    let h1 = spec_step(v, sec, path, decls[0], h)->Ok_0;
    let rest = decls.drop_first();
    assert(forall|k: int| 0 <= k < rest.len() ==> rest[k] == decls[k + 1]);
    assert(spec_family_opt(v, decls[0]) is Some);
    let rid0 = spec_rid(v, decls[0]);
    let f0 = spec_family_opt(v, decls[0])->Some_0;
    let stored0 = is_stored_decl(v, decls[0]);
    let e0 = spec_entry_model(v, sec, path, decls[0], rid0);
    assert(h1.store == if stored0 {
        h.store.push(e0)
    } else {
        h.store
    });
    assert(h1.linked == if h.linked.contains(f0) {
        h.linked
    } else {
        h.linked.push(f0)
    });

    assert forall|k: int, l: int| 0 <= k < l < rest.len() implies !((#[trigger] spec_family_opt(
        v,
        rest[k],
    )) == Some(CapabilityFamily::HttpServer) && (#[trigger] spec_family_opt(v, rest[l])) == Some(
        CapabilityFamily::HttpServer,
    )) by {
        assert(!(spec_family_opt(v, decls[k + 1]) == Some(CapabilityFamily::HttpServer)
            && spec_family_opt(v, decls[l + 1]) == Some(CapabilityFamily::HttpServer)));
    }
    assert forall|k: int, l: int| 0 <= k < l < rest.len() implies !((#[trigger] spec_family_opt(
        v,
        rest[k],
    )) == Some(CapabilityFamily::HttpClient) && (#[trigger] spec_family_opt(v, rest[l])) == Some(
        CapabilityFamily::HttpClient,
    )) by {
        assert(!(spec_family_opt(v, decls[k + 1]) == Some(CapabilityFamily::HttpClient)
            && spec_family_opt(v, decls[l + 1]) == Some(CapabilityFamily::HttpClient)));
    }
    assert forall|k: int| 0 <= k < rest.len() implies ((#[trigger] spec_family_opt(v, rest[k]))
        == Some(CapabilityFamily::HttpServer) ==> !h1.linked.contains(CapabilityFamily::HttpServer))
        && (spec_family_opt(v, rest[k]) == Some(CapabilityFamily::HttpClient)
        ==> !h1.linked.contains(CapabilityFamily::HttpClient)) by {
        lemma_linked_push(h.linked, f0, CapabilityFamily::HttpServer);
        lemma_linked_push(h.linked, f0, CapabilityFamily::HttpClient);
        assert(spec_family_opt(v, decls[k + 1]) == spec_family_opt(v, rest[k]));
        if spec_family_opt(v, rest[k]) == Some(CapabilityFamily::HttpServer) {
            assert(!(spec_family_opt(v, decls[0]) == Some(CapabilityFamily::HttpServer)
                && spec_family_opt(v, decls[k + 1]) == Some(CapabilityFamily::HttpServer)));
        }
        if spec_family_opt(v, rest[k]) == Some(CapabilityFamily::HttpClient) {
            assert(!(spec_family_opt(v, decls[0]) == Some(CapabilityFamily::HttpClient)
                && spec_family_opt(v, decls[k + 1]) == Some(CapabilityFamily::HttpClient)));
        }
    }
    assert forall|n: Seq<char>| #[trigger] spec_contains_name(h.store, n) implies spec_contains_name(
        h1.store,
        n,
    ) by {
        if stored0 {
            lemma_contains_name_push(h.store, e0, n);
        }
    }
}

/// After one successful step, the remaining stored names are still
/// pairwise distinct and fresh against the grown store.
proof fn lemma_rest_names_fresh(
    v: SpecVersion,
    sec: Option<Seq<char>>,
    path: Seq<char>,
    decls: Seq<DeclModel>,
    h: HandleModel,
)
    requires
        decls.len() > 0,
        names_fresh(v, decls, h.store),
        spec_step(v, sec, path, decls[0], h) is Ok,
    ensures
        names_fresh(v, decls.drop_first(), spec_step(v, sec, path, decls[0], h)->Ok_0.store),
{
    let h1 = spec_step(v, sec, path, decls[0], h)->Ok_0;
    let rest = decls.drop_first();
    assert(forall|k: int| 0 <= k < rest.len() ==> rest[k] == decls[k + 1]);
    let stored0 = is_stored_decl(v, decls[0]);
    let rid0 = spec_rid(v, decls[0]);
    let e0 = spec_entry_model(v, sec, path, decls[0], rid0);
    assert(h1.store == if stored0 {
        h.store.push(e0)
    } else {
        h.store
    });
    assert forall|k: int, l: int| 0 <= k < l < rest.len() implies !((#[trigger] is_stored_decl(
        v,
        rest[k],
    )) && (#[trigger] is_stored_decl(v, rest[l])) && rest[k].name == rest[l].name) by {
        assert(!(is_stored_decl(v, decls[k + 1]) && is_stored_decl(v, decls[l + 1]) && decls[k
            + 1].name == decls[l + 1].name));
    }
    assert forall|k: int|
        0 <= k < rest.len() && (#[trigger] is_stored_decl(v, rest[k])) implies !spec_contains_name(
        h1.store,
        rest[k].name,
    ) by {
        assert(is_stored_decl(v, decls[k + 1]));
        assert(!spec_contains_name(h.store, decls[k + 1].name));
        if stored0 {
            assert(!(is_stored_decl(v, decls[0]) && is_stored_decl(v, decls[k + 1])
                && decls[0].name == decls[k + 1].name));
            lemma_contains_name_push(h.store, e0, decls[k + 1].name);
        }
    }
}

/// A declaration whose name the store already holds fails the build with
/// `DuplicateCapabilityName`, provided no other kind of error strikes
/// first.
proof fn lemma_stored_name_collides(
    v: SpecVersion,
    sec: Option<Seq<char>>,
    path: Seq<char>,
    decls: Seq<DeclModel>,
    h: HandleModel,
    j: int,
)
    requires
        all_resolve(v, decls),
        http_not_linked(v, decls, h.linked),
        family_at_most_once(v, decls, CapabilityFamily::HttpServer),
        family_at_most_once(v, decls, CapabilityFamily::HttpClient),
        0 <= j < decls.len(),
        is_stored_decl(v, decls[j]),
        spec_contains_name(h.store, decls[j].name),
    ensures
        spec_build_from(v, sec, path, decls, h) == Err::<HandleModel, BuildError>(
            BuildError::DuplicateCapabilityName,
        ),
    decreases decls.len(),
{
    let d0 = decls[0];
    let rest = decls.drop_first();
    assert(forall|k: int| 0 <= k < rest.len() ==> rest[k] == decls[k + 1]);
    assert(spec_family_opt(v, decls[0]) is Some);
    let step0 = spec_step(v, sec, path, d0, h);
    if is_stored_decl(v, d0) && spec_contains_name(h.store, d0.name) {
        assert(step0 == Err::<HandleModel, BuildError>(BuildError::DuplicateCapabilityName));
    } else {
        assert(j != 0);
        assert(step0 is Ok);
        let h1 = step0->Ok_0;
        lemma_rest_preconditions(v, sec, path, decls, h);
        assert forall|k: int| 0 <= k < rest.len() implies (#[trigger] spec_family_opt(
            v,
            rest[k],
        )) is Some by {
            assert(spec_family_opt(v, decls[k + 1]) is Some);
        }
        assert(is_stored_decl(v, rest[j - 1]));
        assert(spec_contains_name(h1.store, rest[j - 1].name));
        lemma_stored_name_collides(v, sec, path, rest, h1, j - 1);
    }
}

/// Two stored declarations sharing a name fail the build with
/// `DuplicateCapabilityName`, provided every declaration resolves and
/// neither HTTP family is repeated or re-linked.
pub proof fn lemma_duplicate_name_errs(
    v: SpecVersion,
    sec: Option<Seq<char>>,
    path: Seq<char>,
    decls: Seq<DeclModel>,
    h: HandleModel,
    i: int,
    j: int,
)
    requires
        all_resolve(v, decls),
        http_not_linked(v, decls, h.linked),
        family_at_most_once(v, decls, CapabilityFamily::HttpServer),
        family_at_most_once(v, decls, CapabilityFamily::HttpClient),
        0 <= i < j < decls.len(),
        is_stored_decl(v, decls[i]),
        is_stored_decl(v, decls[j]),
        decls[i].name == decls[j].name,
    ensures
        spec_build_from(v, sec, path, decls, h) == Err::<HandleModel, BuildError>(
            BuildError::DuplicateCapabilityName,
        ),
    decreases decls.len(),
{
    let d0 = decls[0];
    let rest = decls.drop_first();
    assert(forall|k: int| 0 <= k < rest.len() ==> rest[k] == decls[k + 1]);
    assert(spec_family_opt(v, decls[0]) is Some);
    let step0 = spec_step(v, sec, path, d0, h);
    if is_stored_decl(v, d0) && spec_contains_name(h.store, d0.name) {
        assert(step0 == Err::<HandleModel, BuildError>(BuildError::DuplicateCapabilityName));
    } else {
        assert(step0 is Ok);
        let h1 = step0->Ok_0;
        lemma_rest_preconditions(v, sec, path, decls, h);
        assert forall|k: int| 0 <= k < rest.len() implies (#[trigger] spec_family_opt(
            v,
            rest[k],
        )) is Some by {
            assert(spec_family_opt(v, decls[k + 1]) is Some);
        }
        if i == 0 {
            let rid0 = spec_rid(v, d0);
            let e0 = spec_entry_model(v, sec, path, d0, rid0);
            assert(h1.store == h.store.push(e0));
            lemma_contains_name_push(h.store, e0, decls[j].name);
            assert(spec_contains_name(h1.store, rest[j - 1].name));
            assert(is_stored_decl(v, rest[j - 1]));
            lemma_stored_name_collides(v, sec, path, rest, h1, j - 1);
        } else {
            assert(is_stored_decl(v, rest[i - 1]));
            assert(is_stored_decl(v, rest[j - 1]));
            lemma_duplicate_name_errs(v, sec, path, rest, h1, i - 1, j - 1);
        }
    }
}

/// A declaration of an HTTP family that is already linked fails the build
/// with `CapabilityAlreadyLinked`, provided every declaration resolves and
/// no duplicate name strikes first.
proof fn lemma_http_family_already_linked(
    v: SpecVersion,
    sec: Option<Seq<char>>,
    path: Seq<char>,
    decls: Seq<DeclModel>,
    h: HandleModel,
    j: int,
    f: CapabilityFamily,
)
    requires
        all_resolve(v, decls),
        names_fresh(v, decls, h.store),
        f == CapabilityFamily::HttpServer || f == CapabilityFamily::HttpClient,
        0 <= j < decls.len(),
        spec_family_opt(v, decls[j]) == Some(f),
        h.linked.contains(f),
    ensures
        spec_build_from(v, sec, path, decls, h) == Err::<HandleModel, BuildError>(
            BuildError::CapabilityAlreadyLinked,
        ),
    decreases decls.len(),
{
    let d0 = decls[0];
    let rest = decls.drop_first();
    assert(forall|k: int| 0 <= k < rest.len() ==> rest[k] == decls[k + 1]);
    assert(spec_family_opt(v, decls[0]) is Some);
    let f0 = spec_family_opt(v, decls[0])->Some_0;
    let step0 = spec_step(v, sec, path, d0, h);
    if is_stored_decl(v, d0) {
        assert(!spec_contains_name(h.store, d0.name));
    }
    if (f0 == CapabilityFamily::HttpServer || f0 == CapabilityFamily::HttpClient)
        && h.linked.contains(f0) {
        assert(step0 == Err::<HandleModel, BuildError>(BuildError::CapabilityAlreadyLinked));
    } else {
        assert(step0 is Ok);
        assert(j != 0);
        let h1 = step0->Ok_0;
        lemma_rest_names_fresh(v, sec, path, decls, h);
        assert forall|k: int| 0 <= k < rest.len() implies (#[trigger] spec_family_opt(
            v,
            rest[k],
        )) is Some by {
            assert(spec_family_opt(v, decls[k + 1]) is Some);
        }
        assert(h1.linked == if h.linked.contains(f0) {
            h.linked
        } else {
            h.linked.push(f0)
        });
        lemma_linked_push(h.linked, f0, f);
        assert(h1.linked.contains(f));
        assert(spec_family_opt(v, rest[j - 1]) == Some(f));
        lemma_http_family_already_linked(v, sec, path, rest, h1, j - 1, f);
    }
}

/// Two declarations resolving to the same HTTP family fail the build with
/// `CapabilityAlreadyLinked`, provided every declaration resolves and no
/// duplicate name strikes first.
pub proof fn lemma_second_http_errs(
    v: SpecVersion,
    sec: Option<Seq<char>>,
    path: Seq<char>,
    decls: Seq<DeclModel>,
    h: HandleModel,
    i: int,
    j: int,
    f: CapabilityFamily,
)
    requires
        all_resolve(v, decls),
        names_fresh(v, decls, h.store),
        f == CapabilityFamily::HttpServer || f == CapabilityFamily::HttpClient,
        0 <= i < j < decls.len(),
        spec_family_opt(v, decls[i]) == Some(f),
        spec_family_opt(v, decls[j]) == Some(f),
    ensures
        spec_build_from(v, sec, path, decls, h) == Err::<HandleModel, BuildError>(
            BuildError::CapabilityAlreadyLinked,
        ),
    decreases decls.len(),
{
    let d0 = decls[0];
    let rest = decls.drop_first();
    assert(forall|k: int| 0 <= k < rest.len() ==> rest[k] == decls[k + 1]);
    assert(spec_family_opt(v, decls[0]) is Some);
    let f0 = spec_family_opt(v, decls[0])->Some_0;
    let step0 = spec_step(v, sec, path, d0, h);
    if is_stored_decl(v, d0) {
        assert(!spec_contains_name(h.store, d0.name));
    }
    if (f0 == CapabilityFamily::HttpServer || f0 == CapabilityFamily::HttpClient)
        && h.linked.contains(f0) {
        assert(step0 == Err::<HandleModel, BuildError>(BuildError::CapabilityAlreadyLinked));
    } else {
        assert(step0 is Ok);
        let h1 = step0->Ok_0;
        lemma_rest_names_fresh(v, sec, path, decls, h);
        assert forall|k: int| 0 <= k < rest.len() implies (#[trigger] spec_family_opt(
            v,
            rest[k],
        )) is Some by {
            assert(spec_family_opt(v, decls[k + 1]) is Some);
        }
        assert(h1.linked == if h.linked.contains(f0) {
            h.linked
        } else {
            h.linked.push(f0)
        });
        lemma_linked_push(h.linked, f0, f);
        if i == 0 {
            assert(f0 == f);
            assert(h1.linked.contains(f));
            assert(spec_family_opt(v, rest[j - 1]) == Some(f));
            lemma_http_family_already_linked(v, sec, path, rest, h1, j - 1, f);
        } else {
            assert(spec_family_opt(v, rest[i - 1]) == Some(f));
            assert(spec_family_opt(v, rest[j - 1]) == Some(f));
            lemma_second_http_errs(v, sec, path, rest, h1, i - 1, j - 1, f);
        }
    }
}

/// An unsupported spec version fails the build at once, independent of
/// the rest of the manifest's contents.
pub proof fn lemma_unsupported_version_fails(m: ManifestModel, path: Seq<char>)
    requires
        spec_parse_version(m.spec_version) is None,
    ensures
        spec_build(m, path) == Err::<HandleModel, BuildError>(BuildError::UnsupportedSpecVersion),
{
}

/// Two stored declarations sharing a name never build, whatever their
/// resource identifiers and whatever else the manifest holds.
pub proof fn lemma_duplicate_name_never_builds(
    m: ManifestModel,
    path: Seq<char>,
    v: SpecVersion,
    i: int,
    j: int,
)
    requires
        spec_parse_version(m.spec_version) == Some(v),
        0 <= i < j < m.capabilities.len(),
        is_stored_decl(v, m.capabilities[i]),
        is_stored_decl(v, m.capabilities[j]),
        m.capabilities[i].name == m.capabilities[j].name,
    ensures
        spec_build(m, path) is Err,
{
    if spec_build(m, path) is Ok {
        lemma_build_ok_conditions(v, m.secret_store, path, m.capabilities, spec_init_handle());
        assert(!((is_stored_decl(v, m.capabilities[i])) && (is_stored_decl(v, m.capabilities[j]))
            && m.capabilities[i].name == m.capabilities[j].name));
    }
}

/// Two stored declarations sharing a name fail the build with
/// `DuplicateCapabilityName` when no other kind of error strikes first:
/// every declaration resolves and neither HTTP family is repeated.
pub proof fn lemma_duplicate_name_fails(
    m: ManifestModel,
    path: Seq<char>,
    v: SpecVersion,
    i: int,
    j: int,
)
    requires
        spec_parse_version(m.spec_version) == Some(v),
        all_resolve(v, m.capabilities),
        family_at_most_once(v, m.capabilities, CapabilityFamily::HttpServer),
        family_at_most_once(v, m.capabilities, CapabilityFamily::HttpClient),
        0 <= i < j < m.capabilities.len(),
        is_stored_decl(v, m.capabilities[i]),
        is_stored_decl(v, m.capabilities[j]),
        m.capabilities[i].name == m.capabilities[j].name,
    ensures
        spec_build(m, path) == Err::<HandleModel, BuildError>(BuildError::DuplicateCapabilityName),
{
    let h = spec_init_handle();
    assert(!h.linked.contains(CapabilityFamily::HttpServer));
    assert(!h.linked.contains(CapabilityFamily::HttpClient));
    lemma_duplicate_name_errs(v, m.secret_store, path, m.capabilities, h, i, j);
}

/// Two declarations resolving to the same HTTP family never build.
pub proof fn lemma_second_http_never_builds(
    m: ManifestModel,
    path: Seq<char>,
    v: SpecVersion,
    i: int,
    j: int,
    f: CapabilityFamily,
)
    requires
        spec_parse_version(m.spec_version) == Some(v),
        f == CapabilityFamily::HttpServer || f == CapabilityFamily::HttpClient,
        0 <= i < j < m.capabilities.len(),
        spec_family_opt(v, m.capabilities[i]) == Some(f),
        spec_family_opt(v, m.capabilities[j]) == Some(f),
    ensures
        spec_build(m, path) is Err,
{
    if spec_build(m, path) is Ok {
        lemma_build_ok_conditions(v, m.secret_store, path, m.capabilities, spec_init_handle());
        assert(!(spec_family_opt(v, m.capabilities[i]) == Some(f) && spec_family_opt(
            v,
            m.capabilities[j],
        ) == Some(f)));
    }
}

/// Two declarations resolving to the same HTTP family fail the build with
/// `CapabilityAlreadyLinked` when no duplicate name strikes first.
pub proof fn lemma_second_http_fails(
    m: ManifestModel,
    path: Seq<char>,
    v: SpecVersion,
    i: int,
    j: int,
    f: CapabilityFamily,
)
    requires
        spec_parse_version(m.spec_version) == Some(v),
        all_resolve(v, m.capabilities),
        names_fresh(v, m.capabilities, Seq::empty()),
        f == CapabilityFamily::HttpServer || f == CapabilityFamily::HttpClient,
        0 <= i < j < m.capabilities.len(),
        spec_family_opt(v, m.capabilities[i]) == Some(f),
        spec_family_opt(v, m.capabilities[j]) == Some(f),
    ensures
        spec_build(m, path) == Err::<HandleModel, BuildError>(BuildError::CapabilityAlreadyLinked),
{
    lemma_second_http_errs(
        v,
        m.secret_store,
        path,
        m.capabilities,
        spec_init_handle(),
        i,
        j,
        f,
    );
}

/// A declaration whose identifier the registry does not know fails the
/// build with `UnknownCapabilityIdentifier`, provided no other kind of
/// error strikes first.
proof fn lemma_unknown_identifier_errs(
    v: SpecVersion,
    sec: Option<Seq<char>>,
    path: Seq<char>,
    decls: Seq<DeclModel>,
    h: HandleModel,
    j: int,
)
    requires
        forall|k: int| 0 <= k < decls.len() ==> (#[trigger] spec_resource_id(v, decls[k])) is Some,
        names_fresh(v, decls, h.store),
        http_not_linked(v, decls, h.linked),
        family_at_most_once(v, decls, CapabilityFamily::HttpServer),
        family_at_most_once(v, decls, CapabilityFamily::HttpClient),
        0 <= j < decls.len(),
        spec_resolve(spec_rid(v, decls[j])) is None,
    ensures
        spec_build_from(v, sec, path, decls, h) == Err::<HandleModel, BuildError>(
            BuildError::UnknownCapabilityIdentifier,
        ),
    decreases decls.len(),
{
    let d0 = decls[0];
    let rest = decls.drop_first();
    assert(forall|k: int| 0 <= k < rest.len() ==> rest[k] == decls[k + 1]);
    assert(spec_resource_id(v, decls[0]) is Some);
    if is_stored_decl(v, d0) {
        assert(!spec_contains_name(h.store, d0.name));
    }
    let step0 = spec_step(v, sec, path, d0, h);
    if spec_resolve(spec_rid(v, d0)) is None {
        assert(step0 == Err::<HandleModel, BuildError>(BuildError::UnknownCapabilityIdentifier));
    } else {
        assert(j != 0);
        assert(spec_family_opt(v, decls[0]) is Some);
        assert(step0 is Ok);
        let h1 = step0->Ok_0;
        lemma_rest_preconditions(v, sec, path, decls, h);
        lemma_rest_names_fresh(v, sec, path, decls, h);
        assert forall|k: int| 0 <= k < rest.len() implies (#[trigger] spec_resource_id(
            v,
            rest[k],
        )) is Some by {
            assert(spec_resource_id(v, decls[k + 1]) is Some);
        }
        assert(spec_resolve(spec_rid(v, rest[j - 1])) is None);
        lemma_unknown_identifier_errs(v, sec, path, rest, h1, j - 1);
    }
}

/// A declaration whose identifier the registry does not know fails the
/// whole build with `UnknownCapabilityIdentifier` when no other kind of
/// error strikes first: every declaration carries an identifier, stored
/// names are distinct, and neither HTTP family is repeated.
pub proof fn lemma_unknown_identifier_fails(
    m: ManifestModel,
    path: Seq<char>,
    v: SpecVersion,
    j: int,
)
    requires
        spec_parse_version(m.spec_version) == Some(v),
        forall|k: int|
            0 <= k < m.capabilities.len() ==> (#[trigger] spec_resource_id(
                v,
                m.capabilities[k],
            )) is Some,
        names_fresh(v, m.capabilities, Seq::empty()),
        family_at_most_once(v, m.capabilities, CapabilityFamily::HttpServer),
        family_at_most_once(v, m.capabilities, CapabilityFamily::HttpClient),
        0 <= j < m.capabilities.len(),
        spec_resolve(spec_rid(v, m.capabilities[j])) is None,
    ensures
        spec_build(m, path) == Err::<HandleModel, BuildError>(
            BuildError::UnknownCapabilityIdentifier,
        ),
{
    let h = spec_init_handle();
    assert(!h.linked.contains(CapabilityFamily::HttpServer));
    assert(!h.linked.contains(CapabilityFamily::HttpClient));
    lemma_unknown_identifier_errs(v, m.secret_store, path, m.capabilities, h, j);
}

/// A declaration whose identifier appears in no family's table never
/// builds; nothing of its declaration survives, since no handle is
/// produced at all.
pub proof fn lemma_unknown_identifier_never_builds(
    m: ManifestModel,
    path: Seq<char>,
    v: SpecVersion,
    i: int,
)
    requires
        spec_parse_version(m.spec_version) == Some(v),
        0 <= i < m.capabilities.len(),
        spec_resource_id(v, m.capabilities[i]) is Some,
        spec_resolve(spec_rid(v, m.capabilities[i])) is None,
    ensures
        spec_build(m, path) is Err,
{
    if spec_build(m, path) is Ok {
        lemma_build_ok_conditions(v, m.secret_store, path, m.capabilities, spec_init_handle());
        assert(spec_family_opt(v, m.capabilities[i]) is Some);
    }
}

/// What a successful build of a whole manifest is and yields: it succeeds
/// exactly under the build preconditions, its store holds each stored
/// declaration's entry under that declaration's own name, and a family's
/// host functions are linked, exactly once, precisely when some
/// declaration resolves to that family.
pub proof fn lemma_build_succeeds(m: ManifestModel, path: Seq<char>, v: SpecVersion)
    requires
        spec_parse_version(m.spec_version) == Some(v),
        all_resolve(v, m.capabilities),
        family_at_most_once(v, m.capabilities, CapabilityFamily::HttpServer),
        family_at_most_once(v, m.capabilities, CapabilityFamily::HttpClient),
        names_fresh(v, m.capabilities, Seq::empty()),
    ensures
        ({
            let r = spec_build(m, path);
            &&& r is Ok
            &&& handle_wf(r->Ok_0)
            &&& forall|k: int|
                0 <= k < m.capabilities.len() && (#[trigger] is_stored_decl(v, m.capabilities[k]))
                    ==> spec_contains_entry(
                    r->Ok_0.store,
                    spec_entry_model(
                        v,
                        m.secret_store,
                        path,
                        m.capabilities[k],
                        spec_rid(v, m.capabilities[k]),
                    ),
                )
            &&& forall|f: CapabilityFamily|
                #![auto]
                r->Ok_0.linked.contains(f) <==> exists|k: int|
                    0 <= k < m.capabilities.len() && spec_family_opt(v, m.capabilities[k]) == Some(
                        f,
                    )
        }),
{
    let h = spec_init_handle();
    assert(handle_wf(h));
    assert(!h.linked.contains(CapabilityFamily::HttpServer));
    assert(!h.linked.contains(CapabilityFamily::HttpClient));
    assert forall|k: int|
        0 <= k < m.capabilities.len() && (#[trigger] is_stored_decl(
            v,
            m.capabilities[k],
        )) implies !spec_contains_name(h.store, m.capabilities[k].name) by {}
    lemma_build_from_success(v, m.secret_store, path, m.capabilities, h);
    let r = spec_build(m, path);
    assert forall|f: CapabilityFamily|
        #![auto]
        r->Ok_0.linked.contains(f) <==> exists|k: int|
            0 <= k < m.capabilities.len() && spec_family_opt(v, m.capabilities[k]) == Some(
                f,
            ) by {
        assert(!h.linked.contains(f));
    }
}

/// Scanning the declarations for the inbound-HTTP identifier, when every
/// declaration carries an identifier, succeeds and answers whether some
/// declaration carries `http`.
proof fn lemma_requests_http_value(v: SpecVersion, decls: Seq<DeclModel>)
    requires
        forall|k: int| 0 <= k < decls.len() ==> (#[trigger] spec_resource_id(v, decls[k])) is Some,
    ensures
        spec_requests_http(v, decls) == Ok::<bool, BuildError>(
            exists|k: int|
                0 <= k < decls.len() && (#[trigger] spec_resource_id(v, decls[k])) == Some(
                    "http"@,
                ),
        ),
    decreases decls.len(),
{
    if decls.len() == 0 {
    } else {
        let rest = decls.drop_first();
        assert(forall|k: int| 0 <= k < rest.len() ==> rest[k] == decls[k + 1]);
        assert(spec_resource_id(v, decls[0]) is Some);
        if spec_resource_id(v, decls[0]) == Some("http"@) {
        } else {
            assert forall|k: int| 0 <= k < rest.len() implies (#[trigger] spec_resource_id(
                v,
                rest[k],
            )) is Some by {
                assert(spec_resource_id(v, decls[k + 1]) is Some);
            }
            lemma_requests_http_value(v, rest);
            if exists|k: int|
                0 <= k < rest.len() && (#[trigger] spec_resource_id(v, rest[k])) == Some("http"@) {
                let k = choose|k: int|
                    0 <= k < rest.len() && (#[trigger] spec_resource_id(v, rest[k])) == Some(
                        "http"@,
                    );
                assert(spec_resource_id(v, decls[k + 1]) == Some("http"@));
            }
            if exists|k: int|
                0 <= k < decls.len() && (#[trigger] spec_resource_id(v, decls[k])) == Some(
                    "http"@,
                ) {
                let k = choose|k: int|
                    0 <= k < decls.len() && (#[trigger] spec_resource_id(v, decls[k])) == Some(
                        "http"@,
                    );
                assert(k != 0);
                assert(spec_resource_id(v, rest[k - 1]) == Some("http"@));
            }
        }
    }
}

/// The two ways the engine looks for the inbound-HTTP capability agree:
/// whenever a manifest builds, scanning it for the `http` identifier
/// succeeds and answers exactly whether the built handle linked the
/// `HttpServer` family.
pub proof fn lemma_http_detection_agrees(m: ManifestModel, path: Seq<char>, v: SpecVersion)
    requires
        spec_parse_version(m.spec_version) == Some(v),
        spec_build(m, path) is Ok,
    ensures
        spec_manifest_requests_http(m) == Ok::<bool, BuildError>(
            spec_build(m, path)->Ok_0.linked.contains(CapabilityFamily::HttpServer),
        ),
{
    let caps = m.capabilities;
    let h = spec_init_handle();
    lemma_build_ok_conditions(v, m.secret_store, path, caps, h);
    assert forall|k: int| 0 <= k < caps.len() implies (#[trigger] spec_resource_id(
        v,
        caps[k],
    )) is Some by {
        assert(spec_family_opt(v, caps[k]) is Some);
    }
    lemma_requests_http_value(v, caps);
    lemma_build_from_success(v, m.secret_store, path, caps, h);
    let h2 = spec_build(m, path)->Ok_0;
    assert(!h.linked.contains(CapabilityFamily::HttpServer));
    if h2.linked.contains(CapabilityFamily::HttpServer) {
        assert(exists|k: int|
            0 <= k < caps.len() && spec_family_opt(v, caps[k]) == Some(
                CapabilityFamily::HttpServer,
            ));
        let k = choose|k: int|
            0 <= k < caps.len() && spec_family_opt(v, caps[k]) == Some(
                CapabilityFamily::HttpServer,
            );
        lemma_http_family_is_http_rid(v, caps[k]);
        assert(spec_resource_id(v, caps[k]) == Some("http"@));
    } else {
        if exists|k: int|
            0 <= k < caps.len() && (#[trigger] spec_resource_id(v, caps[k])) == Some("http"@) {
            let k = choose|k: int|
                0 <= k < caps.len() && (#[trigger] spec_resource_id(v, caps[k])) == Some("http"@);
            lemma_http_family_is_http_rid(v, caps[k]);
            assert(spec_family_opt(v, caps[k]) == Some(CapabilityFamily::HttpServer));
            assert(h2.linked.contains(CapabilityFamily::HttpServer));
        }
    }
}

/// A declaration resolves to the `HttpServer` family exactly when its
/// resource identifier is `http`.
proof fn lemma_http_family_is_http_rid(v: SpecVersion, d: DeclModel)
    ensures
        spec_family_opt(v, d) == Some(CapabilityFamily::HttpServer) <==> spec_resource_id(v, d)
            == Some("http"@),
{
    match spec_resource_id(v, d) {
        Some(rid) => {
            crate::family::lemma_registry_round_trip(CapabilityFamily::HttpServer, rid);
        },
        None => {},
    }
}

} // verus!
