//! The manifest: spec version, optional secret store, and an ordered
//! sequence of capability declarations.
//!
//! Two spec-version shapes exist. They differ only in which field carries
//! the resource identifier: under `0.1` the declaration's `name` doubles as
//! the identifier, under `0.2` a dedicated `resource` field carries it and
//! must be present.

use vstd::prelude::*;

use crate::error::BuildError;
use crate::text::str_eq;

verus! {

/// The two supported manifest shapes.
#[derive(Clone, Copy, Debug, PartialEq, Eq, Structural)]
pub enum SpecVersion {
    /// `specversion = "0.1"`: the declaration name is the resource identifier.
    V0_1,
    /// `specversion = "0.2"`: a dedicated `resource` field carries the
    /// identifier.
    V0_2,
}

/// One capability declaration as it appears in the manifest: a
/// manifest-local alias, an optional resource identifier, and an ordered
/// configuration mapping.
pub struct CapabilityDeclaration {
    pub name: String,
    pub resource: Option<String>,
    pub configs: Vec<(String, String)>,
}

/// The mathematical value of a declaration.
#[verifier::ext_equal]
pub ghost struct DeclModel {
    pub name: Seq<char>,
    pub resource: Option<Seq<char>>,
    pub configs: Seq<(Seq<char>, Seq<char>)>,
}

impl View for CapabilityDeclaration {
    type V = DeclModel;

    open spec fn view(&self) -> DeclModel {
        DeclModel {
            name: self.name@,
            resource: match self.resource {
                Some(r) => Some(r@),
                None => None,
            },
            configs: self.configs@.map_values(|p: (String, String)| (p.0@, p.1@)),
        }
    }
}

/// A parsed manifest. Decoding the on-disk textual format is outside this
/// crate; the engine consumes the already-structured document.
pub struct Manifest {
    pub spec_version: String,
    pub secret_store: Option<String>,
    pub capabilities: Vec<CapabilityDeclaration>,
}

/// The mathematical value of a manifest.
#[verifier::ext_equal]
pub ghost struct ManifestModel {
    pub spec_version: Seq<char>,
    pub secret_store: Option<Seq<char>>,
    pub capabilities: Seq<DeclModel>,
}

impl View for Manifest {
    type V = ManifestModel;

    open spec fn view(&self) -> ManifestModel {
        ManifestModel {
            spec_version: self.spec_version@,
            secret_store: match self.secret_store {
                Some(s) => Some(s@),
                None => None,
            },
            capabilities: self.capabilities@.map_values(|d: CapabilityDeclaration| d@),
        }
    }
}

/// The spec version a `specversion` string denotes, if any.
pub open spec fn spec_parse_version(s: Seq<char>) -> Option<SpecVersion> {
    if s == "0.1"@ {
        Some(SpecVersion::V0_1)
    } else if s == "0.2"@ {
        Some(SpecVersion::V0_2)
    } else {
        None
    }
}

/// Parses the `specversion` field, failing with `UnsupportedSpecVersion`
/// exactly when it is neither `0.1` nor `0.2`.
pub fn parse_spec_version(s: &str) -> (r: Result<SpecVersion, BuildError>)
    ensures
        match spec_parse_version(s@) {
            Some(v) => r == Ok::<SpecVersion, BuildError>(v),
            None => r == Err::<SpecVersion, BuildError>(BuildError::UnsupportedSpecVersion),
        },
{
    if str_eq(s, "0.1") {
        Ok(SpecVersion::V0_1)
    } else if str_eq(s, "0.2") {
        Ok(SpecVersion::V0_2)
    } else {
        Err(BuildError::UnsupportedSpecVersion)
    }
}

/// The resource identifier a declaration carries under a given spec
/// version: the name itself under `0.1`, the `resource` field under `0.2`
/// (absent when that field is missing).
pub open spec fn spec_resource_id(v: SpecVersion, d: DeclModel) -> Option<Seq<char>> {
    match v {
        SpecVersion::V0_1 => Some(d.name),
        SpecVersion::V0_2 => d.resource,
    }
}

/// Reads a declaration's resource identifier, failing with
/// `MissingResourceField` exactly when the version requires a `resource`
/// field that is absent.
pub fn resource_id<'a>(v: SpecVersion, d: &'a CapabilityDeclaration) -> (r: Result<
    &'a String,
    BuildError,
>)
    ensures
        match spec_resource_id(v, d@) {
            Some(s) => r matches Ok(rid) && rid@ == s,
            None => r == Err::<&'a String, BuildError>(BuildError::MissingResourceField),
        },
{
    match v {
        SpecVersion::V0_1 => Ok(&d.name),
        SpecVersion::V0_2 => match &d.resource {
            Some(res) => Ok(res),
            None => Err(BuildError::MissingResourceField),
        },
    }
}

/// Whether some declaration in the sequence carries the inbound-HTTP
/// identifier, scanning in manifest order and failing on the first
/// declaration whose resource identifier cannot be read.
pub open spec fn spec_requests_http(v: SpecVersion, decls: Seq<DeclModel>) -> Result<
    bool,
    BuildError,
>
    decreases decls.len(),
{
    if decls.len() == 0 {
        Ok(false)
    } else {
        match spec_resource_id(v, decls[0]) {
            None => Err(BuildError::MissingResourceField),
            Some(rid) => if rid == "http"@ {
                Ok(true)
            } else {
                spec_requests_http(v, decls.drop_first())
            },
        }
    }
}

/// Whether the manifest declares the inbound-HTTP capability.
pub open spec fn spec_manifest_requests_http(m: ManifestModel) -> Result<bool, BuildError> {
    match spec_parse_version(m.spec_version) {
        None => Err(BuildError::UnsupportedSpecVersion),
        Some(v) => spec_requests_http(v, m.capabilities),
    }
}

/// Looks for the inbound-HTTP capability among the manifest's declarations.
pub fn manifest_requests_http(m: &Manifest) -> (r: Result<bool, BuildError>)
    ensures
        r == spec_manifest_requests_http(m@),
{
    let v = match parse_spec_version(m.spec_version.as_str()) {
        Ok(v) => v,
        Err(e) => {
            return Err(e);
        },
    };
    let ghost decls = m@.capabilities;
    let n = m.capabilities.len();
    assert(decls.skip(0) =~= decls);
    for i in 0..n
        invariant
            n == decls.len(),
            decls == m@.capabilities,
            spec_parse_version(m@.spec_version) == Some(v),
            spec_requests_http(v, decls.skip(i as int)) == spec_requests_http(v, decls),
    {
        let d = &m.capabilities[i];
        assert(decls.skip(i as int)[0] == decls[i as int]);
        match resource_id(v, d) {
            Ok(rid) => {
                if str_eq(rid.as_str(), "http") {
                    return Ok(true);
                }
                assert(decls.skip(i as int).drop_first() =~= decls.skip(i + 1));
            },
            Err(e) => {
                return Err(e);
            },
        }
    }
    assert(decls.skip(n as int) =~= Seq::<DeclModel>::empty());
    Ok(false)
}

} // verus!
