//! The package manifest model: what the graph reads from a `package.json`
//! document, namely the package name. Parsing is delegated to an outside
//! crate; the manifest the library holds is a plain value.

use vstd::prelude::*;

verus! {

/// What parsing a package manifest yields: `None` when the text is not a
/// valid manifest document, otherwise the manifest's `name` field.
pub uninterp spec fn manifest_name(s: Seq<char>) -> Option<Option<Seq<char>>>;

/// The manifest fields the graph reads.
#[derive(Debug, Clone, PartialEq)]
pub struct PackageManifest {
    /// The package's name, when the manifest declares one.
    pub name: Option<String>,
}

/// The name a manifest declares, as a character sequence.
pub open spec fn manifest_name_view(m: PackageManifest) -> Option<Seq<char>> {
    match m.name {
        Some(n) => Some(n@),
        None => None,
    }
}

/// Relies on `starbase_utils::json::parse` deserializing a
/// `nodejs_package_json::PackageJson`: the name field is a function of
/// the text alone.
#[verifier::external_body]
pub(crate) fn parse_manifest_text(text: &str) -> (r: Result<PackageManifest, String>)
    ensures
        r is Ok <==> manifest_name(text@) is Some,
        r matches Ok(m) ==> manifest_name(text@) matches Some(n) && (m.name matches Some(s) ==> n
            == Some(s@)) && (m.name is None ==> n is None),
{
    match starbase_utils::json::parse::<nodejs_package_json::PackageJson>(text) {
        Ok(pj) => Ok(PackageManifest { name: pj.name }),
        Err(e) => Err(e.to_string()),
    }
}

} // verus!
